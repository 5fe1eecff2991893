use pundoc::basic_config;
use pundoc::config::{
    pick, resolve_language, CitationStyle, CliArgs, Config, ConfigEnv, DocumentType, FileConfig,
    FileOrStdio, MaybeUnknown, OutType,
};

fn env() -> ConfigEnv {
    ConfigEnv {
        temp_dir: "/tmp/t".to_string(),
        document_folder: "/doc".to_string(),
        cfgfile_folder: None,
        bibliography: None,
        template: None,
        logo_university: None,
        logo_faculty: None,
        abstract1: None,
        abstract2: None,
    }
}

fn args(output: Option<FileOrStdio>, input: FileOrStdio, fileconfig: FileConfig) -> CliArgs {
    CliArgs { output, out_dir: None, input, configfile: None, fileconfig }
}

#[test]
fn out_type_from_str() {
    assert_eq!(OutType::from_str("TeX").unwrap(), OutType::Latex);
    assert_eq!(OutType::from_str("latex").unwrap(), OutType::Latex);
    assert_eq!(OutType::from_str("PDF").unwrap(), OutType::Pdf);
    assert_eq!(OutType::from_str("ffmpeg").unwrap(), OutType::Mp4);
    assert_eq!(OutType::from_str("doc").unwrap_err(), "unknown output type \"doc\"");
    assert_eq!(basic_config::OutType::from_str("Pdf").unwrap(), basic_config::OutType::Pdf);
    assert_eq!(basic_config::OutType::from_str("mp4").unwrap_err(), "mp4");
}

#[test]
fn file_or_stdio_from_str() {
    assert!(matches!(FileOrStdio::from_str("-"), FileOrStdio::StdIo));
    assert!(matches!(FileOrStdio::from_str(""), FileOrStdio::StdIo));
    match FileOrStdio::from_str("a.md") {
        FileOrStdio::File(p) => assert_eq!(p, "a.md"),
        _ => panic!("expected a file"),
    }
}

#[test]
fn names_of_styles_and_document_types() {
    assert_eq!(CitationStyle::from_str("numeric-comp"), Some(CitationStyle::NumericComp));
    assert_eq!(CitationStyle::VerboseTrad2.to_string(), "verbose-trad2");
    assert_eq!(CitationStyle::ChicagoAuthordate.to_string(), "chicago-authordate");
    assert_eq!(DocumentType::from_str("beamer"), Some(DocumentType::Beamer));
    assert_eq!(DocumentType::from_str("Beamer"), None);
    match MaybeUnknown::<CitationStyle>::from_str("mystyle") {
        MaybeUnknown::Unknown(s) => assert_eq!(s, "mystyle"),
        _ => panic!("expected an unknown style"),
    }
    assert_eq!(MaybeUnknown::<CitationStyle>::from_str("apa").to_string(), "apa");
}

#[test]
fn pick_prefers_the_command_line() {
    assert_eq!(pick(Some(1), Some(2), Some(3)), Some(1));
    assert_eq!(pick(None, Some(2), Some(3)), Some(2));
    assert_eq!(pick(None, None, Some(3)), Some(3));
    assert_eq!(pick::<u8>(None, None, None), None);
}

#[test]
fn languages() {
    assert_eq!(resolve_language(None), Some("eng".to_string()));
    assert_eq!(resolve_language(Some("de".to_string())), Some("deu".to_string()));
    assert_eq!(resolve_language(Some("fra".to_string())), Some("fra".to_string()));
    assert_eq!(resolve_language(Some("de_DE.UTF-8".to_string())), Some("deu".to_string()));
    assert_eq!(resolve_language(Some("xx".to_string())), None);
}

#[test]
fn config_defaults() {
    let cfg = Config::new(
        args(None, FileOrStdio::File("doc/thesis.md".to_string()), FileConfig::default()),
        FileConfig::default(),
        FileConfig::default(),
        env(),
    )
    .unwrap();
    assert_eq!(cfg.output_type, OutType::Pdf);
    match &cfg.output {
        FileOrStdio::File(p) => assert_eq!(p, "thesis.pdf"),
        _ => panic!("expected a file"),
    }
    assert_eq!(cfg.document_type, DocumentType::Article);
    assert!(!cfg.figures);
    assert_eq!(cfg.fontsize, "11pt");
    assert!(cfg.titlepage);
    assert!(!cfg.oneside);
    assert!(cfg.sectionframes);
    assert_eq!(cfg.beamertheme, "Madrid");
    assert_eq!(cfg.lang, "eng");
    assert_eq!(cfg.out_dir, "/tmp/t");
    assert_eq!(cfg.project_root, "/doc");
    assert!(matches!(cfg.citestyle, MaybeUnknown::Known(CitationStyle::NumericComp)));
    assert!(matches!(cfg.bibstyle, MaybeUnknown::Known(CitationStyle::Ieee)));
}

#[test]
fn config_precedence() {
    let mut cli = FileConfig::default();
    cli.title = Some("cli".to_string());
    cli.classoptions = vec!["a".to_string(), "b".to_string()];
    cli.header_includes = vec!["x".to_string()];
    let mut infile = FileConfig::default();
    infile.title = Some("infile".to_string());
    infile.author = Some("me".to_string());
    infile.document_type = Some(DocumentType::Thesis);
    infile.classoptions = vec!["b".to_string(), "c".to_string()];
    infile.header_includes = vec!["y".to_string()];
    let mut file = FileConfig::default();
    file.author = Some("them".to_string());
    file.citationstyle = Some(MaybeUnknown::Known(CitationStyle::Apa));
    file.lang = Some("de".to_string());
    let cfg = Config::new(
        args(Some(FileOrStdio::StdIo), FileOrStdio::StdIo, cli),
        infile,
        file,
        env(),
    )
    .unwrap();
    assert_eq!(cfg.title, Some("cli".to_string()));
    assert_eq!(cfg.author, Some("me".to_string()));
    assert_eq!(cfg.document_type, DocumentType::Thesis);
    assert!(cfg.figures);
    assert_eq!(cfg.output_type, OutType::Latex);
    assert_eq!(cfg.classoptions, vec!["a".to_string(), "b".to_string(), "c".to_string()]);
    assert_eq!(cfg.header_includes, vec!["x".to_string(), "y".to_string()]);
    assert!(matches!(cfg.citestyle, MaybeUnknown::Known(CitationStyle::Apa)));
    assert!(matches!(cfg.bibstyle, MaybeUnknown::Known(CitationStyle::Apa)));
    assert_eq!(cfg.lang, "deu");
}

#[test]
fn output_type_from_the_output_file() {
    let cfg = Config::new(
        args(Some(FileOrStdio::File("out.TEX".to_string())), FileOrStdio::StdIo, FileConfig::default()),
        FileConfig::default(),
        FileConfig::default(),
        env(),
    )
    .unwrap();
    assert_eq!(cfg.output_type, OutType::Latex);
    let mut plain = basic_config::Config {
        output: FileOrStdio::File("x.pdf".to_string()),
        input: FileOrStdio::StdIo,
        output_type: None,
    };
    plain.normalize();
    assert_eq!(plain.output_type, Some(basic_config::OutType::Pdf));
}

#[test]
fn unknown_language_is_an_error() {
    let mut cli = FileConfig::default();
    cli.lang = Some("klingon".to_string());
    let r = Config::new(
        args(Some(FileOrStdio::StdIo), FileOrStdio::StdIo, cli),
        FileConfig::default(),
        FileConfig::default(),
        env(),
    );
    assert_eq!(r.unwrap_err(), "Unknown language parameter");
}
