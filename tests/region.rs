use jadwal_shalat::{
    build_daerah, find_daerah, lookup_daerah, province_options, regencies_of, region_line, Daerah,
};

fn region(p: &str, k: &str) -> Daerah {
    Daerah {
        provinsi: p.to_string(),
        provinsi_token: format!("{}-token", p),
        kabupaten: k.to_string(),
        kabupaten_token: format!("{}-token", k),
    }
}

fn catalog() -> Vec<Daerah> {
    vec![
        region("ACEH", "KAB. ACEH BARAT"),
        region("ACEH", "KOTA BANDA ACEH"),
        region("DKI JAKARTA", "KOTA JAKARTA PUSAT"),
    ]
}

#[test]
fn lookup_ignores_the_case_of_the_input() {
    let c = catalog();
    assert_eq!(lookup_daerah(&c, "aceh", "kota banda aceh"), Some(1));
    assert_eq!(lookup_daerah(&c, "Dki Jakarta", "Kota Jakarta Pusat"), Some(2));
    assert_eq!(lookup_daerah(&c, "ACEH", "KAB. ACEH BARAT"), Some(0));
}

#[test]
fn lookup_does_not_trim() {
    let c = catalog();
    assert_eq!(lookup_daerah(&c, "aceh ", "kota banda aceh"), None);
    assert_eq!(lookup_daerah(&c, "aceh", "kota banda aceh "), None);
    assert_eq!(lookup_daerah(&c, "aceh", "kota jakarta pusat"), None);
}

#[test]
fn find_matches_stored_names_exactly() {
    let c = catalog();
    assert_eq!(find_daerah(&c, "ACEH", "KOTA BANDA ACEH"), Some(1));
    assert_eq!(find_daerah(&c, "aceh", "kota banda aceh"), None);
    assert_eq!(find_daerah(&Vec::new(), "ACEH", "KOTA BANDA ACEH"), None);
}

#[test]
fn regencies_carry_their_province() {
    let options = vec![("KAB. A".to_string(), "ta".to_string()), ("KOTA B".to_string(), "tb".to_string())];
    let r = regencies_of("ACEH", "tok-aceh", &options);
    assert_eq!(r.len(), 2);
    assert_eq!((r[0].provinsi.as_str(), r[0].provinsi_token.as_str()), ("ACEH", "tok-aceh"));
    assert_eq!((r[0].kabupaten.as_str(), r[0].kabupaten_token.as_str()), ("KAB. A", "ta"));
    assert_eq!((r[1].kabupaten.as_str(), r[1].kabupaten_token.as_str()), ("KOTA B", "tb"));
}

#[test]
fn regencies_are_read_from_the_fragment() {
    let html = r#"<option value="tok1">KAB. ACEH BARAT</option><option value="tok2">KOTA BANDA ACEH</option><option>KOTA X</option>"#;
    let r = build_daerah("ACEH", "tok-aceh", html).unwrap();
    assert_eq!(r.len(), 3);
    assert_eq!((r[0].kabupaten.as_str(), r[0].kabupaten_token.as_str()), ("KAB. ACEH BARAT", "tok1"));
    assert_eq!((r[1].kabupaten.as_str(), r[1].kabupaten_token.as_str()), ("KOTA BANDA ACEH", "tok2"));
    assert_eq!((r[2].kabupaten.as_str(), r[2].kabupaten_token.as_str()), ("KOTA X", ""));
    assert!(r.iter().all(|d| d.provinsi == "ACEH" && d.provinsi_token == "tok-aceh"));
}

#[test]
fn empty_fragment_has_no_regencies() {
    assert!(build_daerah("ACEH", "tok-aceh", "").unwrap().is_empty());
}

#[test]
fn provinces_are_read_from_the_page_selector() {
    let page = r#"<html><body>
        <select id="other"><option value="o">OTHER</option></select>
        <select id="search_prov"><option value="a1">ACEH</option><option value="b2">BALI</option></select>
        </body></html>"#;
    let r = province_options(page).unwrap();
    assert_eq!(r, vec![("ACEH".to_string(), "a1".to_string()), ("BALI".to_string(), "b2".to_string())]);
}

#[test]
fn page_without_province_selector_gives_none() {
    assert!(province_options("<html><body><p>maintenance</p></body></html>").is_none());
}

#[test]
fn region_line_names_regency_then_province() {
    assert_eq!(region_line(&region("ACEH", "KOTA BANDA ACEH")), "Kabupaten: KOTA BANDA ACEH, Provinsi: ACEH");
}

#[test]
fn stored_names_not_in_upper_case_are_never_found() {
    let c = vec![region("Jawa Barat", "Kota Bandung")];
    assert_eq!(lookup_daerah(&c, "Jawa Barat", "Kota Bandung"), None);
    assert_eq!(lookup_daerah(&c, "jawa barat", "kota bandung"), None);
    assert_eq!(lookup_daerah(&c, "JAWA BARAT", "KOTA BANDUNG"), None);
}

#[test]
fn attributes_inside_options_keep_their_order() {
    let html = r#"<option value="1"><b x="1" y="2">A</b></option>"#;
    for _ in 0..5 {
        let r = build_daerah("ACEH", "tok-aceh", html).unwrap();
        assert_eq!(r[0].kabupaten, r#"<b x="1" y="2">A</b>"#);
    }
}
