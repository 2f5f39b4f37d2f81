use aligner_frontend::assemble::ArgAssembler;

fn assemble(pieces: &[(&str, bool)]) -> Vec<String> {
    let mut assembler = ArgAssembler::new();
    for (text, incomplete) in pieces {
        assembler.push(text, *incomplete);
    }
    assembler.finish()
}

#[test]
fn incomplete_piece_joins_the_next() {
    assert_eq!(assemble(&[("a", true), ("b", false)]), vec!["ab".to_string()]);
}

#[test]
fn trailing_incomplete_piece_is_kept() {
    assert_eq!(assemble(&[("a", true)]), vec!["a".to_string()]);
    assert_eq!(
        assemble(&[("x", false), ("a", true), ("b", true)]),
        vec!["x".to_string(), "ab".to_string()]
    );
}

#[test]
fn complete_pieces_are_one_argument_each() {
    assert_eq!(
        assemble(&[("one", false), ("two", false), ("three", false)]),
        vec!["one".to_string(), "two".to_string(), "three".to_string()]
    );
}

#[test]
fn no_pieces_give_no_arguments() {
    assert_eq!(assemble(&[]), Vec::<String>::new());
}

#[test]
fn several_incomplete_pieces_make_one_argument() {
    assert_eq!(
        assemble(&[("--out=", true), ("/volumes/_d", true), ("/f.fits", false), ("-v", false)]),
        vec!["--out=/volumes/_d/f.fits".to_string(), "-v".to_string()]
    );
}

#[test]
fn empty_complete_piece_is_an_empty_argument() {
    assert_eq!(assemble(&[("", false)]), vec!["".to_string()]);
    assert_eq!(assemble(&[("a", false), ("", false)]), vec!["a".to_string(), "".to_string()]);
}

#[test]
fn empty_trailing_text_is_not_an_argument() {
    assert_eq!(assemble(&[("", true)]), Vec::<String>::new());
    assert_eq!(assemble(&[("a", false), ("", true)]), vec!["a".to_string()]);
}

#[test]
fn assembling_keeps_all_text() {
    let pieces = [("--a=", true), ("b", false), ("", false), ("c", true), ("d", true)];
    let args = assemble(&pieces);
    assert_eq!(args, vec!["--a=b".to_string(), "".to_string(), "cd".to_string()]);
    let written: String = pieces.iter().map(|(text, _)| *text).collect();
    assert_eq!(args.concat(), written);
    assert_eq!(args.concat(), "--a=bcd");
}
