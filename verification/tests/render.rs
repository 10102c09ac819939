use svd2pac::aurix::{
    check_for_vendor_extension, csfr_peripheral_name, error_with_context, find_first,
    get_aurix_csfr_svd,
};
use svd2pac::options::package_name;
use svd2pac::error::ParseError;
use svd2pac::ir::PathChunk;
use svd2pac::render::{
    num_str_to_hex, parse_number, prepend_lines, render_path, svd_description_to_doc, to_decimal,
    to_hex,
};

fn chunk(path: &str, index: Option<u32>) -> PathChunk {
    PathChunk { path: path.to_string(), index }
}

#[test]
fn numbers_in_decimal() {
    assert_eq!(to_decimal(0), "0");
    assert_eq!(to_decimal(7), "7");
    assert_eq!(to_decimal(10), "10");
    assert_eq!(to_decimal(4096), "4096");
    assert_eq!(to_decimal(u64::MAX), "18446744073709551615");
}

#[test]
fn numbers_in_hexadecimal() {
    assert_eq!(to_hex(0), "0x0");
    assert_eq!(to_hex(9), "0x9");
    assert_eq!(to_hex(10), "0xa");
    assert_eq!(to_hex(255), "0xff");
    assert_eq!(to_hex(0x4000_1000), "0x40001000");
    assert_eq!(to_hex(u64::MAX), "0xffffffffffffffff");
}

#[test]
fn decimal_texts_are_read_as_numbers() {
    assert_eq!(parse_number("0"), Some(0));
    assert_eq!(parse_number("007"), Some(7));
    assert_eq!(parse_number("+42"), Some(42));
    assert_eq!(parse_number("18446744073709551615"), Some(u64::MAX));
    assert_eq!(parse_number("18446744073709551616"), None);
    assert_eq!(parse_number("99999999999999999999999"), None);
    assert_eq!(parse_number(""), None);
    assert_eq!(parse_number("+"), None);
    assert_eq!(parse_number("-1"), None);
    assert_eq!(parse_number("12a"), None);
    assert_eq!(parse_number("1 2"), None);
    assert_eq!(parse_number("++1"), None);
}

#[test]
fn reading_agrees_with_the_standard_library() {
    for text in ["0", "1", "+5", "65536", "abc", "", "+", "18446744073709551616", "٣"] {
        assert_eq!(parse_number(text), text.parse::<u64>().ok());
    }
}

#[test]
fn decimal_text_becomes_hexadecimal() {
    assert_eq!(num_str_to_hex("260"), Some("0x104".to_string()));
    assert_eq!(num_str_to_hex("0"), Some("0x0".to_string()));
    assert_eq!(num_str_to_hex("x"), None);
}

#[test]
fn path_is_rendered_as_an_expression() {
    assert_eq!(render_path(&Vec::new()), "");
    assert_eq!(render_path(&vec![chunk("TIMER", None)]), "TIMER");
    assert_eq!(
        render_path(&vec![chunk("TIMER", None), chunk("bitfield_reg", None)]),
        "TIMER.bitfield_reg()"
    );
    assert_eq!(
        render_path(&vec![chunk("UART", Some(0)), chunk("reg1_", Some(1))]),
        "UART[0].reg1_()[1]"
    );
    assert_eq!(
        render_path(&vec![
            chunk("DMA", None),
            chunk("ch", Some(12)),
            chunk("cfg", None),
            chunk("r#match", None)
        ]),
        "DMA.ch()[12].cfg().r#match()"
    );
}

#[test]
fn lines_are_split_and_prefixed() {
    assert_eq!(prepend_lines("one\ntwo\r\nthree", "// "), vec!["// one", "// two", "// three"]);
    assert_eq!(prepend_lines("", "#"), vec!["#"]);
    assert_eq!(prepend_lines("a\n", "#"), vec!["#a", "#"]);
    assert_eq!(prepend_lines("\n\n", "#"), vec!["#", "#", "#"]);
    assert_eq!(prepend_lines("a\rb", "#"), vec!["#a\rb"]);
    assert_eq!(prepend_lines("a\r\r\nb", ""), vec!["a\r", "b"]);
}

#[test]
fn description_is_escaped_for_a_documentation_attribute() {
    assert_eq!(svd_description_to_doc("plain"), "plain");
    assert_eq!(svd_description_to_doc("bits [7:0]"), "bits \\\\[7:0\\\\]");
    assert_eq!(svd_description_to_doc("say \"hi\"\n"), "say \\\"hi\\\"\\n");
}

#[test]
fn first_occurrence_is_found_from_a_position() {
    let text: Vec<char> = "abcabc".chars().collect();
    let pat: Vec<char> = "bc".chars().collect();
    assert_eq!(find_first(&text, &pat, 0), Some(1));
    assert_eq!(find_first(&text, &pat, 2), Some(4));
    assert_eq!(find_first(&text, &pat, 5), None);
    assert_eq!(find_first(&text, &pat, 9), None);
    assert_eq!(find_first(&text, &Vec::new(), 6), Some(6));
    assert_eq!(find_first(&Vec::new(), &pat, 0), None);
}

#[test]
fn vendor_extension_is_detected() {
    assert!(check_for_vendor_extension("<device>\n<vendorExtensions>\n</device>"));
    assert!(!check_for_vendor_extension("<device>\n<vendor>\n</device>"));
    assert!(!check_for_vendor_extension(""));
}

#[test]
fn core_register_section_is_cut_out() {
    let xml = "<device><name>X</name><peripherals><peripheral/></peripherals>\
<vendorExtensions><aurixCSFR><peripheral>CPU</peripheral></aurixCSFR></vendorExtensions></device>";
    let mut out = String::from("before");
    assert_eq!(get_aurix_csfr_svd(xml, &mut out), Ok(()));
    assert_eq!(
        out,
        "<device><name>X</name> <peripherals> <peripheral>CPU</peripheral> </peripherals>\n </device>"
    );
}

#[test]
fn core_register_section_without_peripherals_keeps_the_whole_head() {
    let xml = "<device><aurixCSFR>A<aurixCSFR>B</aurixCSFR>";
    let mut out = String::new();
    assert_eq!(get_aurix_csfr_svd(xml, &mut out), Ok(()));
    assert_eq!(
        out,
        "<device><aurixCSFR>A<aurixCSFR>B</aurixCSFR> <peripherals> A </peripherals>\n </device>"
    );
}

#[test]
fn missing_core_register_section_is_an_error() {
    let expected = ParseError::Unsupported(
        "svd parsing error: problem with svd to extract aurix cpu related peripherals, <vendorExtensions> or <aurixCSFR> maybe missing?"
            .to_string(),
    );
    let mut out = String::from("untouched");
    assert_eq!(
        get_aurix_csfr_svd("<device><peripherals/></device>", &mut out),
        Err(expected.clone())
    );
    assert_eq!(out, "untouched");
    assert_eq!(error_with_context(), Err(expected));
}

#[test]
fn core_register_peripherals_are_renamed() {
    assert_eq!(csfr_peripheral_name("CPU0"), "csfr_CPU0");
    assert_eq!(csfr_peripheral_name(""), "csfr_");
}

#[test]
fn package_is_named_by_choice_or_after_the_device() {
    assert_eq!(package_name(&Some("My_Pac".to_string()), "Chip"), "My_Pac");
    assert_eq!(package_name(&None, "TC37X_Chip"), "tc37x_chip");
}
