use ruby_ls::presentation::{name_range, symbol_tag, NameRange, SymbolTag};
use ruby_ls::point::Point;
use ruby_ls::ruby_env_provider::{EnvError, RubyEnvProvider};
use ruby_ls::ruby_filename_converter::{ConverterError, RubyFilenameConverter};
use ruby_ls::scope::Scope;
use ruby_ls::types::{RSymbolKind, RSymbolV2};

fn provider(version: Option<&str>, gemset: Option<&str>) -> RubyEnvProvider {
    RubyEnvProvider::new(
        "/work/project",
        "/home/me/stubs",
        "/home/me/.rvm",
        version.map(str::to_string),
        gemset.map(str::to_string),
    )
}

#[test]
fn stubs_lie_under_major_and_minor() {
    assert_eq!(
        provider(Some("3.1.2"), None).stubs_dir(),
        Ok(Some("/home/me/stubs/rubystubs31".to_string()))
    );
    assert_eq!(
        provider(Some("2.7"), None).stubs_dir(),
        Ok(Some("/home/me/stubs/rubystubs27".to_string()))
    );
    assert_eq!(provider(None, None).stubs_dir(), Ok(None));
    assert_eq!(provider(Some("3"), None).stubs_dir(), Err(EnvError::MalformedVersion));
    assert_eq!(provider(Some(""), None).stubs_dir(), Err(EnvError::MalformedVersion));
}

#[test]
fn gems_lie_under_version_and_gemset() {
    assert_eq!(
        provider(Some("3.1.2"), None).gems_dir(),
        Some("/home/me/.rvm/gems/ruby-3.1.2".to_string())
    );
    assert_eq!(
        provider(Some("3.1.2"), Some("shop")).gems_dir(),
        Some("/home/me/.rvm/gems/ruby-3.1.2@shop".to_string())
    );
    assert_eq!(provider(None, Some("shop")).gems_dir(), None);
    assert_eq!(
        provider(Some("3.1.2"), Some("shop")).ruby_bin_dir(),
        Some("/home/me/.rvm/gems/ruby-3.1.2@shop/bin/".to_string())
    );
    assert_eq!(provider(None, None).ruby_bin_dir(), None);
}

#[test]
fn interpreter_needs_a_version() {
    assert_eq!(
        provider(Some("3.1.2"), None).ruby_path(),
        Ok("/home/me/.rvm/rubies/3.1.2/bin/ruby".to_string())
    );
    assert_eq!(provider(None, None).ruby_path(), Err(EnvError::UnknownVersion));
    assert_eq!(
        provider(Some("3.1.2"), None).context_command(),
        Ok("/home/me/.rvm/gems/ruby-3.1.2/bin/bundle".to_string())
    );
    assert_eq!(provider(None, None).context_command(), Err(EnvError::UnknownVersion));
}

#[test]
fn test_path_to_scope() {
    let converter = RubyFilenameConverter::new("/a/b/c".to_string(), b"").unwrap();
    let result = converter.path_to_scope("/a/b/c/module_one/module_two_three/class_four.rb");
    assert_eq!(
        result.unwrap().segments(),
        vec!["ModuleOne", "ModuleTwoThree", "ClassFour"]
    );
}

#[test]
fn autoload_directory_is_no_part_of_the_scope() {
    let converter =
        RubyFilenameConverter::new("/p".to_string(), b"app/models\napp/models\nlib").unwrap();
    assert_eq!(
        converter.path_to_scope("/p/app/models/billing/invoice_line.rb").unwrap().to_string(),
        "Billing::InvoiceLine"
    );
    assert_eq!(converter.path_to_scope("/p/lib/tool.rb").unwrap().to_string(), "Tool");
    assert_eq!(converter.path_to_scope("/p/spec/models/user_spec.rb").unwrap().to_string(), "Models::UserSpec");
    assert_eq!(converter.path_to_scope("/p/db/seeds.rb").unwrap().to_string(), "Seeds");
    assert_eq!(converter.path_to_scope("/p/other/thing.rb").unwrap().to_string(), "Other::Thing");
    assert_eq!(converter.path_to_scope("/p").unwrap(), Scope::empty());
}

#[test]
fn path_outside_the_root_has_no_scope() {
    let converter = RubyFilenameConverter::new("/p".to_string(), b"lib").unwrap();
    assert_eq!(converter.path_to_scope("/q/lib/tool.rb"), Err(ConverterError::OutsideRoot));
    assert_eq!(converter.path_to_scope("/pp/tool.rb"), Err(ConverterError::OutsideRoot));
}

#[test]
fn listing_must_be_text() {
    assert!(matches!(
        RubyFilenameConverter::new("/p".to_string(), &[0xc3, 0x28]),
        Err(ConverterError::InvalidListing)
    ));
}

#[test]
fn names_with_several_underscores_and_non_ascii_letters() {
    assert_eq!(RubyFilenameConverter::name_to_scope("a__b"), "AB");
    assert_eq!(RubyFilenameConverter::name_to_scope("_x"), "X");
    assert_eq!(RubyFilenameConverter::name_to_scope(""), "");
    assert_eq!(RubyFilenameConverter::capitalize("éa"), "Éa");
    assert_eq!(RubyFilenameConverter::capitalize("ßa"), "SSa");
}

fn symbol(kind: RSymbolKind, name: &str, start: Point) -> RSymbolV2 {
    RSymbolV2 {
        kind,
        name: name.to_string(),
        scope: Scope::empty(),
        file: "/p/a.rb".to_string(),
        start,
        end: start,
        parent: None,
    }
}

#[test]
fn name_range_ends_a_name_length_after_the_start() {
    let s = symbol(RSymbolKind::Constant, "LIMIT", Point::new(3, 4));
    assert_eq!(name_range(&s), Some(NameRange { line: 3, character: 4, end_character: 9 }));
    let wide = symbol(RSymbolKind::Constant, "né", Point::new(0, 0));
    assert_eq!(name_range(&wide), Some(NameRange { line: 0, character: 0, end_character: 3 }));
    let edge = symbol(RSymbolKind::Constant, "ab", Point::new(0, 0xffff_fffd));
    assert_eq!(
        name_range(&edge),
        Some(NameRange { line: 0, character: 0xffff_fffd, end_character: 0xffff_ffff })
    );
    let over = symbol(RSymbolKind::Constant, "abc", Point::new(0, 0xffff_fffd));
    assert_eq!(name_range(&over), None);
    let far = symbol(RSymbolKind::Constant, "a", Point::new(0x1_0000_0000, 0));
    assert_eq!(name_range(&far), None);
}

#[test]
fn kinds_are_tagged_coarsely() {
    assert_eq!(symbol_tag(&RSymbolKind::Class { superclass_scope: Scope::empty() }), SymbolTag::Class);
    assert_eq!(symbol_tag(&RSymbolKind::Module { superclass_scope: Scope::empty() }), SymbolTag::Module);
    assert_eq!(symbol_tag(&RSymbolKind::InstanceMethod { parameters: vec![] }), SymbolTag::Method);
    assert_eq!(symbol_tag(&RSymbolKind::SingletonMethod { parameters: vec![] }), SymbolTag::Method);
    assert_eq!(symbol_tag(&RSymbolKind::Constant), SymbolTag::Constant);
    assert_eq!(symbol_tag(&RSymbolKind::GlobalVariable), SymbolTag::Constant);
    assert_eq!(symbol_tag(&RSymbolKind::InstanceVariable), SymbolTag::Field);
    assert_eq!(symbol_tag(&RSymbolKind::ClassVariable), SymbolTag::Field);
    assert_eq!(symbol_tag(&RSymbolKind::Variable), SymbolTag::Null);
    assert!(RSymbolKind::Class { superclass_scope: Scope::empty() }.is_classlike());
    assert!(!RSymbolKind::Constant.is_classlike());
}
