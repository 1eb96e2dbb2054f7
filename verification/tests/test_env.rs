use cell_fixture::test_env::TestEnv;

#[test]
fn names_are_read_whatever_their_case() {
    assert_eq!(TestEnv::from_name(b"debug"), Some(TestEnv::Debug));
    assert_eq!(TestEnv::from_name(b"DEBUG"), Some(TestEnv::Debug));
    assert_eq!(TestEnv::from_name(b"DeBuG"), Some(TestEnv::Debug));
    assert_eq!(TestEnv::from_name(b"release"), Some(TestEnv::Release));
    assert_eq!(TestEnv::from_name(b"Release"), Some(TestEnv::Release));
}

#[test]
fn other_names_name_nothing() {
    assert_eq!(TestEnv::from_name(b""), None);
    assert_eq!(TestEnv::from_name(b"debu"), None);
    assert_eq!(TestEnv::from_name(b"debugg"), None);
    assert_eq!(TestEnv::from_name(b"releasE "), None);
    assert_eq!(TestEnv::from_name(b"test"), None);
    // Bytes above the letters are not lowered onto them.
    assert_eq!(TestEnv::from_name(&[100, 101, 98, 117, 103 + 32]), None);
    assert_eq!(TestEnv::from_name(&[100 - 32, 101, 98, 117, 71]), Some(TestEnv::Debug));
    assert_eq!(TestEnv::from_name(&[100 - 64, 101, 98, 117, 103]), None);
}

#[test]
fn from_str_agrees_with_lowercasing() {
    for name in ["debug", "Debug", "RELEASE", "release", "", "rel", "debug ", "dEbUg", "ReLeAsE"] {
        let expected = match name.to_lowercase().as_str() {
            "debug" => Ok(TestEnv::Debug),
            "release" => Ok(TestEnv::Release),
            _ => Err("no match"),
        };
        assert_eq!(name.parse::<TestEnv>(), expected);
    }
}

#[test]
fn load_prefix_is_the_lower_case_name() {
    assert_eq!(TestEnv::Debug.load_prefix(), "debug");
    assert_eq!(TestEnv::Release.load_prefix(), "release");
}
