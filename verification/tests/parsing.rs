use sotpal::utils::{parse_i32, Error};

fn failure(s: &str) -> String {
    match parse_i32(s) {
        Err(Error::General(m)) => m,
        Ok(v) => format!("ok {}", v),
    }
}

#[test]
fn parse_i32_matches_std() {
    for s in ["0", "42", "-17", "+8", "2147483647", "-2147483648", "007", "", "-", "+", "1x", "x1", "2147483648",
        "-2147483649", "99999999999x", " 1", "٣", "--1"] {
        let ours = parse_i32(s).map_err(|Error::General(m)| m);
        let std = s.parse::<i32>().map_err(|e| e.to_string());
        assert_eq!(ours, std, "input {:?}", s);
    }
    assert_eq!(failure(""), "cannot parse integer from empty string");
    assert_eq!(failure("2147483648"), "number too large to fit in target type");
    assert_eq!(failure("-2147483649"), "number too small to fit in target type");
    assert_eq!(failure("12a"), "invalid digit found in string");
}
