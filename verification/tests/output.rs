use git_poly::io::{frame_output, output_block, write_to_out, USAGE};

#[test]
fn output_stands_under_its_header() {
    assert_eq!(frame_output("./repo", b"line\n"), b"./repo\nline\n\n".to_vec());
    assert_eq!(frame_output("", b""), b"\n\n".to_vec());
    assert_eq!(frame_output("é", &[0xff, 0x00]), vec![0xc3, 0xa9, 10, 0xff, 0x00, 10]);
}

#[test]
fn no_output_gives_no_block() {
    colored::control::set_override(false);
    assert_eq!(output_block("./repo", b""), None);
    assert_eq!(output_block("./repo", b"x"), Some(b"./repo\nx\n".to_vec()));
}

#[test]
fn the_header_is_cyan() {
    colored::control::set_override(true);
    let mut sink = b"before".to_vec();
    write_to_out(&mut sink, "./repo", b"out");
    assert_eq!(sink, b"before\x1b[36m./repo\x1b[0m\nout\n".to_vec());
    assert_eq!(output_block("r", b"x"), Some(b"\x1b[36mr\x1b[0m\nx\n".to_vec()));
}

#[test]
fn the_header_is_plain_without_colours() {
    colored::control::set_override(false);
    let mut sink = Vec::new();
    write_to_out(&mut sink, "./repo", b"out\n");
    write_to_out(&mut sink, "./other", b"");
    assert_eq!(sink, b"./repo\nout\n\n./other\n\n".to_vec());
}

#[test]
fn usage_names_the_subcommands() {
    assert!(USAGE.starts_with("\nUSAGE:\n    git poly [OPTIONS] [SUBCOMMAND]\n"));
    assert!(USAGE.contains("    status                    Show the merged working tree status of all the repos\n"));
    assert!(USAGE.ends_with("replace <from> <to>       Find and replace all occurances of FROM with TO\n"));
}
