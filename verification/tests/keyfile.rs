use sol_wallet::keyfile::{parse_keypair, trim_keypair};

#[test]
fn trim_keypair_reads_a_bracketed_list() {
    assert_eq!(trim_keypair("[1,2,255]\n"), vec![1u8, 2, 255]);
}

#[test]
fn trim_keypair_reads_a_whole_key() {
    let bytes: Vec<u8> = (0..64).map(|i| (i * 4) as u8).collect();
    let listed: Vec<String> = bytes.iter().map(|b| format!("{}", b)).collect();
    let text = format!("[{}]\n", listed.join(","));
    assert_eq!(trim_keypair(&text), bytes);
}

#[test]
fn blanks_around_the_values_mean_nothing() {
    assert_eq!(trim_keypair("[1, 2, 3]"), vec![1u8, 2, 3]);
    assert_eq!(parse_keypair("[ 1 ,\t2 ,\n 3 ]"), Some(vec![1, 2, 3]));
    assert_eq!(parse_keypair("  [9]  \r\n"), Some(vec![9]));
    assert_eq!(parse_keypair("[\n  0,\n  255\n]\n"), Some(vec![0, 255]));
}

#[test]
fn an_array_gives_as_many_bytes_as_it_lists() {
    for n in [1usize, 32, 63, 65, 100] {
        let bytes: Vec<u8> = (0..n).map(|i| (i % 251) as u8).collect();
        let listed: Vec<String> = bytes.iter().map(|b| format!("{}", b)).collect();
        assert_eq!(parse_keypair(&format!("[{}]", listed.join(", "))), Some(bytes.clone()));
        assert_eq!(parse_keypair(&format!("[{}]", listed.join(","))), Some(bytes));
    }
}

#[test]
fn the_empty_array_lists_no_bytes() {
    assert_eq!(parse_keypair("[]"), Some(vec![]));
    assert_eq!(parse_keypair(" [ \n ] "), Some(vec![]));
    assert_eq!(trim_keypair("[]"), Vec::<u8>::new());
}

#[test]
fn a_text_that_is_not_bracketed_is_refused() {
    assert_eq!(parse_keypair("[1,2"), None);
    assert_eq!(parse_keypair("1,2]"), None);
    assert_eq!(parse_keypair("1,2"), None);
    assert_eq!(parse_keypair(""), None);
    assert_eq!(parse_keypair("["), None);
    assert_eq!(parse_keypair("]"), None);
    assert_eq!(parse_keypair("]["), None);
    assert_eq!(parse_keypair("[1,2] x"), None);
    assert_eq!(parse_keypair("x [1,2]"), None);
}

#[test]
fn a_bracket_inside_the_array_is_refused() {
    assert_eq!(parse_keypair("1,[2],3"), None);
    assert_eq!(parse_keypair("[[1]]"), None);
    assert_eq!(parse_keypair("[1]2[3]"), None);
    assert_eq!(parse_keypair("[1,[2],3]"), None);
    assert_eq!(parse_keypair("[1,2]]"), None);
}

#[test]
fn a_value_is_written_in_digits_alone() {
    assert_eq!(parse_keypair("[0,7,10,255]"), Some(vec![0, 7, 10, 255]));
    assert_eq!(parse_keypair("[+1]"), None);
    assert_eq!(parse_keypair("[002]"), None);
    assert_eq!(parse_keypair("[00]"), None);
    assert_eq!(parse_keypair("[-2]"), None);
    assert_eq!(parse_keypair("[1.5]"), None);
    assert_eq!(parse_keypair("[1e1]"), None);
    assert_eq!(parse_keypair("[a]"), None);
    assert_eq!(parse_keypair("[1 2]"), None);
    assert_eq!(parse_keypair("[\"1\"]"), None);
}

#[test]
fn parse_keypair_rejects_a_value_above_a_byte() {
    assert_eq!(parse_keypair("[1,256]"), None);
    assert_eq!(parse_keypair("[300,1]"), None);
    assert_eq!(parse_keypair("[99999999999999999999]"), None);
}

#[test]
fn parse_keypair_rejects_empty_pieces() {
    assert_eq!(parse_keypair("[1,]"), None);
    assert_eq!(parse_keypair("[,1]"), None);
    assert_eq!(parse_keypair("[1,,2]"), None);
    assert_eq!(parse_keypair("[,]"), None);
    assert_eq!(parse_keypair("[1, ,2]"), None);
}
