use assembler::address::{lines_with_addresses, AddressedLine};
use assembler::line::{parse_line, Line};

fn parsed(source: &[&str]) -> Vec<Line> {
    source.iter().map(|text| parse_line(text)).collect()
}

fn addresses(source: &[&str]) -> Vec<i16> {
    lines_with_addresses(parsed(source)).iter().map(|entry| entry.address).collect()
}

#[test]
fn label_takes_the_address_of_the_next_instruction() {
    assert_eq!(addresses(&["const 5", ":loop", "dup", "jle :loop"]), vec![0, 1, 1, 2]);
}

#[test]
fn lines_keep_their_order_and_content() {
    let source = ["const 5", ":loop", "dup", "jle :loop"];
    let addressed = lines_with_addresses(parsed(&source));
    let lines: Vec<Line> = addressed.iter().map(|entry| entry.line.clone()).collect();
    assert_eq!(lines, parsed(&source));
    assert_eq!(
        addressed[1],
        AddressedLine { line: Line::LabelDefinition { name: ":loop".to_string() }, address: 1 }
    );
    assert_eq!(addressed[1].clone(), addressed[1]);
}

#[test]
fn trailing_label_takes_the_address_past_the_last_instruction() {
    assert_eq!(addresses(&["pop", "pop", ":end"]), vec![0, 1, 2]);
}

#[test]
fn consecutive_labels_share_an_address() {
    assert_eq!(addresses(&[":a", ":b", "pop", ":c", ":d"]), vec![0, 0, 0, 1, 1]);
}

#[test]
fn empty_program_has_no_addressed_lines() {
    assert_eq!(lines_with_addresses(Vec::new()), Vec::new());
}

#[test]
fn address_counter_wraps_in_sixteen_bits() {
    let mut source = vec!["pop"; 32768];
    source.push(":far");
    source.push("pop");
    let all = addresses(&source);
    assert_eq!(all[32767], 32767);
    assert_eq!(all[32768], -32768);
    assert_eq!(all[32769], -32768);
}
