use eipscanner::cip::connection_manager::{ConnectionConfig, ConnectionPath, Direction};
use eipscanner::cip::CipDataType;
use eipscanner::eds::{parse, parse_int, Eds, EdsRpi, Field};
use eipscanner::Error;

/// Trimmed from the OpENer sample application's EDS.
const SAMPLE: &str = r#"
[Device]
        VendCode = 1;
        VendName = "Rockwell Automation";
        ProdType = 12;
        ProdCode = 65001;
        MajRev = 2;
        MinRev = 3;
        ProdName = "OpENer PC";
        Catalog = "OpENer-2.x";

[Params]
        Param1 =
                0, ,, 0x0000, 0xD1, 1, "Input Data", "", "",
                ,,0, ,,,, ,,,, ;
        Param4 =
                0,                      $ reserved, shall equal 0
                ,,                      $ Link Path Size, Link Path
                0x0000,                 $ Descriptor
                0xC8,                   $ Data Type
                4,                      $ Data Size in bytes
                "RPI",                  $ name
                "",                     $ units
                "New Help String",      $ help string
                20000,,30000,           $ min, max, default data values
                ,,,,                    $ mult, div, base, offset scaling
                ,,,,                    $ mult, div, base, offset links
                ;                       $ decimal places
        Param9 =
                0, ,, 0x0000, 0xC6, 1, "Config instance", "", "",
                ,,0x97, ,,,, ,,,, ;

[Assembly]
        Assem100 = "Input Assembly", "", 32, 0x0000, ,, 8,Param1, 8,Param1;
        Assem150 = "Output Assembly", "", , 0x0000, ,, 128,Param1, 128,Param1;
        Assem151 = "Config Assembly", "", 10, 0x0000, ,, ;

[Connection Manager]
        Connection1 =
                0x84010002,
                0x44640405,
                Param4,,Assem150,       $ O->T RPI, size, format
                Param4,,Assem100,       $ T->O RPI, size, format
                ,,                      $ config #1 size, format
                ,Assem151,              $ config #2 size, format
                "Exlusive Owner",       $ Connection Name
                "",                     $ help string
                "20 04 24 97 2C 96 2C 64";    $ Path
        Connection2 =
                0x02010002, 0x44640305,
                5000,0,,                $ O->T: fixed 5 ms RPI, heartbeat
                Param4,,Assem100,
                ,, ,Assem151,
                "Input Only", "",
                "20 04 24 [Param9] 2C 98 2C 64";
"#;

#[test]
fn device() {
    let d = Eds::parse(SAMPLE).unwrap().device().unwrap();
    assert_eq!((d.vendor_id, d.product_type, d.product_code), (1, 12, 65001));
    assert_eq!((d.major_revision, d.minor_revision), (2, 3));
    assert_eq!(d.product_name, "OpENer PC");
    assert_eq!(d.catalog, "OpENer-2.x");
}

#[test]
fn assemblies_and_params() {
    let eds = Eds::parse(SAMPLE).unwrap();
    assert_eq!(eds.assembly(100).unwrap().size, 32);
    assert_eq!(eds.assembly(150).unwrap().size, 32, "size from members");
    let rpi = eds.param(4).unwrap();
    assert_eq!(rpi.data_type, CipDataType(CipDataType::UDINT));
    assert_eq!(
        (rpi.min.as_deref(), rpi.max.as_deref(), rpi.default_int()),
        (Some("20000"), None, Some(30000))
    );
}

#[test]
fn exclusive_owner_connection() {
    let eds = Eds::parse(SAMPLE).unwrap();
    let c = eds.connection(1).unwrap();
    assert_eq!(c.name, "Exlusive Owner");
    assert_eq!(c.path, ConnectionPath::assembly(151, 150, 100));
    assert_eq!((c.o2t.size, c.t2o.size), (32, 32));
    assert_eq!(c.config_assembly, Some(151));
    assert_eq!(
        c.o2t.rpi,
        Some(EdsRpi {
            min: Some(20000),
            max: None,
            default: Some(30000)
        })
    );

    let config = c.to_connection_config().unwrap();
    // 30 ms, in microseconds.
    let rpi = 30_000;
    let expected = ConnectionConfig::new(
        ConnectionPath::assembly(151, 150, 100),
        Direction::new(32, rpi).with_run_idle_header(),
        Direction::new(32, rpi),
    );
    assert_eq!(config, expected);
}

#[test]
fn param_reference_in_path_and_literal_rpi() {
    let eds = Eds::parse(SAMPLE).unwrap();
    let c = eds.connection(2).unwrap();
    assert_eq!(c.path.to_string(), "20 04 24 97 2C 98 2C 64");
    assert_eq!(c.o2t.size, 0);
    assert_eq!(c.o2t.rpi.unwrap().default, Some(5000));
    let config = c.to_connection_config().unwrap();
    // 5 ms, in microseconds.
    assert_eq!(config.o2t.rpi_us, 5_000);
    assert!(!config.o2t.run_idle_header, "format 3 is not the run/idle header");
    assert_eq!(eds.connections().unwrap().len(), 2);
}

#[test]
fn missing_entries_are_errors() {
    let eds = Eds::parse(SAMPLE).unwrap();
    assert!(eds.connection(7).is_err());
    assert!(eds.assembly(1).is_err());
    let bad = Eds::parse(
        "[Connection Manager]\n Connection1 = 0x2, 0x5, ,,, ,,, ,,,, \"x\", \"\", \"20 ZZ\";",
    )
    .unwrap();
    let err = bad.connection(1).unwrap_err().to_string();
    assert!(err.contains("ZZ"), "{err}");
}

#[test]
fn sections_entries_and_fields() {
    let sections = parse(
        "$ header comment\n\
         [File]\n\
         \tDescText = \"EDS for a test\";   $ trailing comment\n\
         \tRevision = 2.3;\n\
         [Connection Manager]\n\
         \tConnection1 =\n\
         \t\t0x84010002,   $ comment, with a comma; and a semicolon\n\
         \t\tParam4,,Assem150,\n\
         \t\t\"Exclusive \" \"Owner\",\n\
         \t\t\"20 04 24 97\";\n",
    )
    .unwrap();
    assert_eq!(sections.len(), 2);
    assert_eq!(
        sections[0].get("desctext").unwrap().fields,
        [Field::Str("EDS for a test".into())]
    );
    assert_eq!(
        sections[0].get("Revision").unwrap().fields,
        [Field::Token("2.3".into())]
    );

    let conn = sections[1].get("Connection1").unwrap();
    assert_eq!(conn.line, 6);
    assert_eq!(
        conn.fields,
        [
            Field::Token("0x84010002".into()),
            Field::Token("Param4".into()),
            Field::Empty,
            Field::Token("Assem150".into()),
            Field::Str("Exclusive Owner".into()),
            Field::Str("20 04 24 97".into()),
        ]
    );
}

#[test]
fn errors_have_line_numbers() {
    let err = parse("[A]\n  Key = 1,\n  2\n").unwrap_err().to_string();
    assert!(err.contains("line 2") && err.contains("no terminating"), "{err}");
    let err = parse("Key = 1;").unwrap_err().to_string();
    assert!(err.contains("before any section"), "{err}");
    let err = parse("[A]\n Key = \"open\n").unwrap_err().to_string();
    assert!(err.contains("unterminated string"), "{err}");
}

#[test]
fn integers() {
    assert_eq!(parse_int("0x44640405"), Some(0x44640405));
    assert_eq!(parse_int(" 20000 "), Some(20000));
    assert_eq!(parse_int("Param4"), None);
}

#[test]
fn integer_edge_cases() {
    assert_eq!(parse_int("0X1f"), Some(0x1F));
    assert_eq!(parse_int("+12"), Some(12));
    assert_eq!(parse_int("18446744073709551615"), Some(u64::MAX));
    assert_eq!(parse_int("18446744073709551616"), None);
    assert_eq!(parse_int(""), None);
    assert_eq!(parse_int("0x"), None);
    assert_eq!(parse_int("-1"), None);
}

#[test]
fn strings_escapes_and_tokens_across_lines() {
    let sections = parse("[S]\n K = \"a\\\"b\\n\", x\n y , ;\n").unwrap();
    let e = sections[0].get("k").unwrap();
    assert_eq!(
        e.fields,
        [Field::Str("a\"b\n".into()), Field::Token("xy".into()), Field::Empty]
    );
    assert_eq!(e.field(7), Field::Empty);
    assert_eq!(e.field(0).text(), Some("a\"b\n"));
}

#[test]
fn malformed_files() {
    for bad in ["[A\n]", "[A]\n K ; x;", "[A]\n K", "[A]\n K = \"x\\"] {
        assert!(matches!(parse(bad), Err(eipscanner::Error::Eds(_))), "{bad}");
    }
    assert_eq!(parse("").unwrap().len(), 0);
    assert_eq!(parse("$ only a comment").unwrap().len(), 0);
}

#[test]
fn device_needs_its_numbers() {
    let eds = Eds::parse("[Device]\n VendCode = x;").unwrap();
    assert!(matches!(eds.device(), Err(eipscanner::Error::Eds(_))));
    let eds = Eds::parse("[device]\n VendCode = 0x10001; VendName = ; ProdType = 1; ProdCode = 2; MajRev = 3; MinRev = 4; ProdName = \"P\";").unwrap();
    let d = eds.device().unwrap();
    assert_eq!(d.vendor_id, 1, "cut to 16 bits");
    assert_eq!(d.vendor_name, "");
    assert_eq!(d.catalog, "");
}

#[test]
fn unsupported_connections() {
    let eds = Eds::parse(SAMPLE).unwrap();
    let mut c = eds.connection(1).unwrap();
    c.trigger_transport = 0x04;
    assert!(matches!(c.to_connection_config(), Err(eipscanner::Error::Unsupported(_))));
    let mut c = eds.connection(1).unwrap();
    c.connection_params = 0x0002_0000;
    assert!(matches!(c.to_connection_config(), Err(eipscanner::Error::Unsupported(_))));
}

#[test]
fn parse_bytes_replaces_invalid_text() {
    let eds = Eds::parse_bytes(b"[Device]\n ProdName = \"Caf\xe9\";").unwrap();
    assert_eq!(eds.sections[0].entries[0].fields, [Field::Str("Caf\u{FFFD}".into())]);
}

#[test]
fn error_messages_name_line_and_cause() {
    let msg = |text: &str| match parse(text) {
        Err(Error::Eds(m)) => m,
        _ => panic!("expected an EDS error"),
    };
    assert_eq!(msg("[A]\n  Key = 1,\n  2\n"), "line 2: entry 'Key' has no terminating ';'");
    assert_eq!(msg("Key = 1;"), "line 1: entry 'Key' before any section");
    assert_eq!(msg("[A]\n Key = \"open\n"), "line 3: unterminated string");
    assert_eq!(msg("[A\nKey = 1;"), "line 2: unterminated section header");
    assert_eq!(msg("[A]\nKey"), "line 2: expected '=' after 'Key'");
    assert_eq!(msg("[A]\nA;B"), "line 2: expected '=' after 'A', found ';'");
}
