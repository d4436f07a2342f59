use etoro_backend::routes::parse_ids;

#[test]
fn ids_parsed_in_order() {
    assert_eq!(parse_ids("100000,100001"), vec![100000, 100001]);
    assert_eq!(parse_ids(" 1 , 2 ,x,,-3,+4"), vec![1, 2, -3, 4]);
}

#[test]
fn bad_pieces_skipped() {
    assert_eq!(parse_ids(""), Vec::<i64>::new());
    assert_eq!(parse_ids(",,"), Vec::<i64>::new());
    assert_eq!(parse_ids("1 2,3"), vec![3]);
    assert_eq!(parse_ids("-,+,--1,1_000"), Vec::<i64>::new());
}

#[test]
fn range_limits() {
    assert_eq!(parse_ids("9223372036854775807,-9223372036854775808"), vec![i64::MAX, i64::MIN]);
    assert_eq!(parse_ids("9223372036854775808,-9223372036854775809,99999999999999999999"), Vec::<i64>::new());
}

#[test]
fn unicode_whitespace_trimmed() {
    assert_eq!(parse_ids("\u{a0}5\u{2003},\t6\n"), vec![5, 6]);
}

#[test]
fn rendered_ids_parse_back() {
    use_round_trip(&[0, 1, -1, 100000, i64::MAX, i64::MIN]);
}

fn use_round_trip(ids: &[i64]) {
    let text: Vec<String> = ids.iter().map(|&n| etoro_backend::text::decimal_string(n)).collect();
    assert_eq!(parse_ids(&text.join(",")), ids.to_vec());
}

#[test]
fn whitespace_matches_std() {
    for n in 0..=0x10ffffu32 {
        if let Some(c) = char::from_u32(n) {
            assert_eq!(etoro_backend::routes::is_whitespace(c), c.is_whitespace(), "U+{:04X}", n);
        }
    }
}

#[test]
fn spaces_letters_and_empty_pieces() {
    assert_eq!(parse_ids("1, 2,abc,,3"), vec![1, 2, 3]);
    assert_eq!(parse_ids("1"), vec![1]);
}
