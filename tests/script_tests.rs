use pdf2key::script::{assembly_result, push_quoted, AssemblyError, KeynoteBuilder, PERMISSION_HINT};

fn quote(p: &str) -> String {
    let mut s = String::new();
    push_quoted(&mut s, p);
    s
}

#[test]
fn quoting_plain_path() {
    assert_eq!(quote("/tmp/a.png"), "\"/tmp/a.png\"");
}

#[test]
fn quoting_escapes_quotes() {
    assert_eq!(quote("my \"best\" deck.pdf"), "\"my \\\"best\\\" deck.pdf\"");
}

#[test]
fn quoting_escapes_backslashes() {
    assert_eq!(quote("a\\b"), "\"a\\\\b\"");
    assert_eq!(quote("ends with \\"), "\"ends with \\\\\"");
}

#[test]
fn quoting_keeps_spaces_and_unicode() {
    assert_eq!(quote("Relatório final ü 日本.pdf"), "\"Relatório final ü 日本.pdf\"");
}

#[test]
fn quoting_empty_path() {
    assert_eq!(quote(""), "\"\"");
}

#[test]
fn empty_builder_has_no_script() {
    let b = KeynoteBuilder::new();
    assert_eq!(b.slide_count(), 0);
    assert_eq!(b.script("/out.key"), Err(AssemblyError::NoSlides));
}

#[test]
fn script_lists_images_in_order() {
    let mut b = KeynoteBuilder::new();
    b.add_slide("/tmp/w/slide_0000.png");
    b.add_slide("/tmp/w/slide_0001.png");
    b.add_slide("/tmp/w/slide_0002.png");
    assert_eq!(b.slide_count(), 3);
    let s = b.script("/Users/me/My Deck.key").unwrap();
    assert!(s.contains(
        "set imageList to {\"/tmp/w/slide_0000.png\", \"/tmp/w/slide_0001.png\", \"/tmp/w/slide_0002.png\"}"
    ));
    assert!(s.contains("set outputPath to \"/Users/me/My Deck.key\""));
    assert!(s.contains("set currentSlide to slide 1 of theDoc"));
    assert!(s.contains("make new slide at end of slides of theDoc"));
    assert!(s.contains("set position of theImage to {0, 0}"));
    assert!(s.contains("save theDoc in POSIX file outputPath"));
    assert!(!s.contains("activate"));
}

#[test]
fn script_escapes_destination() {
    let mut b = KeynoteBuilder::new();
    b.add_slide("/tmp/x.png");
    let s = b.script("/a \"b\".key").unwrap();
    assert!(s.contains("set outputPath to \"/a \\\"b\\\".key\"\n"));
}

#[test]
fn failed_script_reports_stderr_with_hint() {
    let r = assembly_result(false, "not authorized");
    assert_eq!(r, Err(AssemblyError::ScriptFailed("not authorized".to_string())));
    let msg = r.unwrap_err().message();
    assert_eq!(msg, "Erro no Keynote (Verifique permissões de acesso): not authorized");
    assert!(msg.starts_with(PERMISSION_HINT));
}

#[test]
fn successful_script_is_ok() {
    assert_eq!(assembly_result(true, "some warning"), Ok(()));
}

#[test]
fn no_slides_message() {
    assert_eq!(AssemblyError::NoSlides.message(), "Nenhum slide foi adicionado");
}

#[test]
fn launch_failure_message() {
    assert_eq!(AssemblyError::LaunchFailed.message(), "Falha ao executar osascript");
}
