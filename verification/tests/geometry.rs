use pundoc::config::MaybeUnknown;
use pundoc::geometry::{parse_others, Geometry, Orientation, Papersize};

#[test]
fn papersize_names_ignore_case() {
    assert!(matches!(Papersize::from_str("A4").unwrap(), Papersize::A4paper));
    assert!(matches!(Papersize::from_str("letterPaper").unwrap(), Papersize::Letterpaper));
    assert_eq!(Papersize::from_str("b5j").unwrap().to_string(), "b5j");
    assert_eq!(Papersize::from_str("ansic").unwrap().to_string(), "ansicpaper");
}

#[test]
fn custom_papersize() {
    let p = Papersize::from_str("{30cm, 15cm}").unwrap();
    match &p {
        Papersize::Custom(w, h) => {
            assert_eq!(w, "30cm");
            assert_eq!(h, "15cm");
        },
        _ => panic!("expected a custom size"),
    }
    assert_eq!(p.to_string(), "papersize={30cm,15cm}");
}

#[test]
fn unknown_papersize() {
    assert_eq!(Papersize::from_str("Z9").unwrap_err(), "unknown papersize \"z9\"");
}

#[test]
fn orientation_from_str() {
    assert_eq!(Orientation::from_str("Landscape").unwrap(), Orientation::Landscape);
    assert_eq!(Orientation::from_str("portrait").unwrap().to_string(), "portrait");
    assert_eq!(Orientation::from_str("up").unwrap_err(), "unknown orientation \"up\"");
}

#[test]
fn others_are_parsed_with_the_last_key_winning() {
    let m = parse_others("a=1,b=2,a=3").unwrap();
    assert_eq!(m, vec![("a".to_string(), "3".to_string()), ("b".to_string(), "2".to_string())]);
    let m = parse_others("x=1=2").unwrap();
    assert_eq!(m, vec![("x".to_string(), "1".to_string())]);
}

#[test]
fn others_need_key_value_pairs() {
    let msg = "Expected `key=value,key2=value2` format for others";
    assert_eq!(parse_others("abc").unwrap_err(), msg);
    assert_eq!(parse_others("a=1,b").unwrap_err(), msg);
}

#[test]
fn merge_prefers_the_left_options_and_others() {
    let mut a = Geometry::default();
    a.margin = Some("1cm".to_string());
    a.others = Some(vec![("k".to_string(), "left".to_string())]);
    let mut b = Geometry::default();
    b.margin = Some("2cm".to_string());
    b.top = Some("3cm".to_string());
    b.others = Some(vec![("k".to_string(), "right".to_string()), ("j".to_string(), "1".to_string())]);
    let m = a.merge(b);
    assert_eq!(m.margin, Some("1cm".to_string()));
    assert_eq!(m.top, Some("3cm".to_string()));
    assert_eq!(
        m.others,
        Some(vec![("k".to_string(), "left".to_string()), ("j".to_string(), "1".to_string())])
    );
}

#[test]
fn latex_options_of_a_geometry() {
    let mut g = Geometry::default();
    g.papersize = Some(MaybeUnknown::Known(Papersize::A5paper));
    g.orientation = Some(MaybeUnknown::Unknown("sideways".to_string()));
    g.margin = Some("1cm".to_string());
    g.marginpar = Some("2cm".to_string());
    g.others = Some(vec![("bindingoffset".to_string(), "5mm".to_string())]);
    assert_eq!(
        g.write_latex_options(),
        "a5paper,sideways,margin=1cm,marginpar=2cm,bindingoffset=5mm,"
    );
    assert_eq!(Geometry::default().write_latex_options(), "");
}

#[test]
fn papersize_printed_parses_back() {
    let sizes = [
        "a0", "a1", "a2", "a3", "a4", "a5", "a6", "b0", "b1", "b2", "b3", "b4", "b5", "b6", "c0", "c1",
        "c2", "c3", "c4", "c5", "c6", "b0j", "b1j", "b2j", "b3j", "b4j", "b5j", "b6j", "ansia", "ansib",
        "ansic", "ansid", "ansie", "letter", "executive", "legal",
    ];
    for s in sizes {
        let p = Papersize::from_str(s).unwrap();
        let printed = p.to_string();
        let again = Papersize::from_str(&printed).unwrap();
        assert_eq!(format!("{:?}", again), format!("{:?}", p));
        assert_eq!(again.to_string(), printed);
        let upper = Papersize::from_str(&printed.to_uppercase()).unwrap();
        assert_eq!(format!("{:?}", upper), format!("{:?}", p));
    }
}
