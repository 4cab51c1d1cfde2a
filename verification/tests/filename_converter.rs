use ruby_ls::ruby_filename_converter::RubyFilenameConverter;

#[test]
fn test_name_to_scope() {
    assert_eq!("ModuleOneTwoThree", RubyFilenameConverter::name_to_scope("module_one_two_three"));
}

#[test]
fn test_capitalize() {
    assert_eq!("Module", RubyFilenameConverter::capitalize("module"));
    assert_eq!("", RubyFilenameConverter::capitalize(""));
    assert_eq!("123", RubyFilenameConverter::capitalize("123"));
}
