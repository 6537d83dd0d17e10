use horse::colors::{
    color_debug, color_dim, color_error, color_prompt_number, color_status, color_success,
    color_warning,
};
use horse::console::{build_preamble, format_prompt_text, truncate_display};
use horse::tools::{search_display_args, Tools};

#[test]
fn test_color_codes_frame_the_text() {
    assert_eq!(color_prompt_number("42"), "\x1b[36m42\x1b[39m");
    assert_eq!(color_debug("call"), "\x1b[90mcall\x1b[39m");
    assert_eq!(color_dim("in"), "\x1b[90min\x1b[39m");
    assert_eq!(color_error("boom"), "\x1b[91mboom\x1b[39m");
    assert_eq!(color_success("ready"), "\x1b[92mready\x1b[39m");
    assert_eq!(color_warning("careful"), "\x1b[2m\x1b[35mcareful\x1b[39m\x1b[0m");
    assert_eq!(color_status("loading"), "\x1b[2m\x1b[32mloading\x1b[39m\x1b[0m");
}

#[test]
fn test_truncate_display_short_text_unchanged() {
    assert_eq!(truncate_display("short", 200), "short");
    assert_eq!(truncate_display("", 0), "");
}

#[test]
fn test_truncate_display_cuts_with_ellipsis() {
    assert_eq!(truncate_display("abcdefgh", 4), "abcd...");
    assert_eq!(truncate_display("abcdefgh", 0), "...");
}

#[test]
fn test_truncate_display_keeps_multibyte_characters_whole() {
    // 'é' is two bytes; the character starting below the bound is kept whole
    assert_eq!(truncate_display("héllo", 2), "hé...");
    assert_eq!(truncate_display("ééé", 3), "éé...");
}

#[test]
fn test_format_prompt_without_cache() {
    let prompt = format_prompt_text("1.2k", None, "340");
    assert_eq!(
        prompt,
        "\x1b[90min\x1b[39m \x1b[36m1.2k\x1b[39m, \x1b[90mout\x1b[39m \x1b[36m340\x1b[39m> "
    );
}

#[test]
fn test_format_prompt_with_cache() {
    let prompt = format_prompt_text("1.2k", Some("900"), "340");
    assert_eq!(
        prompt,
        "\x1b[90min\x1b[39m \x1b[36m1.2k\x1b[39m (\x1b[36m900\x1b[39m \x1b[90mcached\x1b[39m), \x1b[90mout\x1b[39m \x1b[36m340\x1b[39m> "
    );
}

#[test]
fn test_build_preamble_default() {
    let preamble = build_preamble(None, None);
    assert_eq!(
        preamble,
        "You are a helpful search assistant. You can read files and execute safe bash commands to help users explore and understand their codebase."
    );
}

#[test]
fn test_build_preamble_with_custom_and_listing() {
    let preamble = build_preamble(Some("Be terse."), Some("./a.txt\n./b.txt\n"));
    assert_eq!(
        preamble,
        "Be terse.\n\n## Available Files\n\nThe following files are available in the working directory:\n\n./a.txt\n./b.txt\n"
    );
}

#[test]
fn test_tool_name_resolution() {
    assert!(matches!(Tools::try_from("bash"), Ok(Tools::Bash)));
    assert!(matches!(Tools::try_from("read_file"), Ok(Tools::ReadFile)));
    assert!(matches!(Tools::try_from("search_docs"), Ok(Tools::SearchDocs)));
    assert!(Tools::try_from("unknown_tool").is_err());
    assert!(Tools::try_from("").is_err());
}

#[test]
fn test_search_display_args_formats_query_and_path() {
    assert_eq!(search_display_args("invoice", None), "invoice in .");
    let docs = String::from("docs/");
    assert_eq!(search_display_args("invoice", Some(&docs)), "invoice in docs/");
}
