use reactive_core::alias_analysis::AliasAnalyzer;
use reactive_core::alias_analysis::Context;
use reactive_core::alias_analysis::LocatedIdentifier;
use reactive_core::alias_analysis::NormalizedName;
use reactive_core::alias_analysis::OccurrenceKind;
use reactive_core::alias_analysis::Scope;
use reactive_core::option::OptionOps;

fn located(crumbs: Vec<usize>, name: &str) -> LocatedIdentifier {
    LocatedIdentifier::new(crumbs, NormalizedName::new(name))
}

#[test]
fn normalized_name_is_lower_case() {
    assert_eq!(NormalizedName::new("FooBar"), NormalizedName("foobar".to_string()));
    assert_eq!(NormalizedName::new("ŻÓŁW"), NormalizedName("żółw".to_string()));
    assert!(NormalizedName::new("Foo").is_same(&NormalizedName::new("fOO")));
    assert!(!NormalizedName::new("Foo").is_same(&NormalizedName::new("bar")));
}

#[test]
fn scope_asks_parent_for_what_it_does_not_introduce() {
    let mut scope = Scope::new();
    scope.add_identifier(OccurrenceKind::Used, located(vec![0], "a"));
    scope.add_identifier(OccurrenceKind::Introduced, located(vec![1], "B"));
    scope.add_identifier(OccurrenceKind::Used, located(vec![2], "b"));
    scope.add_identifier(OccurrenceKind::Used, located(vec![3], "C"));
    assert!(scope.is_introduced(&NormalizedName::new("b")));
    assert!(!scope.is_introduced(&NormalizedName::new("a")));
    assert_eq!(scope.used_from_parent(), vec![located(vec![0], "a"), located(vec![3], "c")]);

    let mut parent = Scope::new();
    parent.add_identifier(OccurrenceKind::Introduced, located(vec![9], "a"));
    parent.add_identifier(OccurrenceKind::Used, located(vec![8], "x"));
    parent.coalesce_child(scope);
    assert_eq!(
        parent.symbols.used,
        vec![located(vec![8], "x"), located(vec![0], "a"), located(vec![3], "c")]
    );
    assert_eq!(parent.symbols.introduced, vec![located(vec![9], "a")]);
    assert_eq!(parent.used_from_parent(), vec![located(vec![8], "x"), located(vec![3], "c")]);
}

#[test]
fn option_ops() {
    assert_eq!(Some(2).zip(Some("a")), Some((2, "a")));
    assert_eq!(Some(2).zip(None::<u8>), None);
    assert_eq!(None::<u8>.zip(Some(1)), None);
    assert_eq!(Some(2).zip_with(Some(3), |a, b| a * b), Some(6));
    assert_eq!(None::<i32>.zip_with(Some(3), |a, b| a * b), None);
    assert_eq!(Some("text".to_string()).map_ref(|s| s.len()), Some(4));
    assert_eq!(None::<String>.map_ref(|s| s.len()), None);
    let seen = std::cell::Cell::new(0);
    Some(5).for_each(|x| seen.set(x));
    assert_eq!(seen.get(), 5);
    Some(6).for_each_ref(|x| seen.set(*x));
    assert_eq!(seen.get(), 6);
    None::<i32>.for_each(|x| seen.set(x));
    assert_eq!(seen.get(), 6);
}

#[test]
fn analyzer_keeps_scopes_contexts_and_locations() {
    let mut analyzer = AliasAnalyzer::new();
    assert!(!analyzer.is_in_pattern());
    assert!(analyzer.is_in_context(Context::NonPattern));
    analyzer.enter_context(Context::Pattern);
    assert!(analyzer.is_in_pattern());
    analyzer.enter_location(0);
    analyzer.enter_location(2);
    analyzer.add_identifier(OccurrenceKind::Introduced, NormalizedName::new("Sum"));
    analyzer.leave_location();
    analyzer.leave_context();
    assert!(!analyzer.is_in_pattern());
    assert_eq!(analyzer.root_scope.symbols.introduced, vec![located(vec![0, 2], "sum")]);

    analyzer.enter_scope();
    analyzer.add_identifier(OccurrenceKind::Introduced, NormalizedName::new("x"));
    analyzer.add_identifier(OccurrenceKind::Used, NormalizedName::new("x"));
    analyzer.add_identifier(OccurrenceKind::Used, NormalizedName::new("y"));
    assert_eq!(analyzer.scopes.len(), 1);
    assert!(analyzer.root_scope.symbols.used.is_empty());
    analyzer.enter_scope();
    analyzer.add_identifier(OccurrenceKind::Used, NormalizedName::new("z"));
    analyzer.leave_scope();
    assert_eq!(analyzer.scopes[0].symbols.used.len(), 3);
    analyzer.leave_scope();
    assert_eq!(analyzer.scopes.len(), 0);
    assert_eq!(analyzer.root_scope.symbols.used, vec![located(vec![0], "y"), located(vec![0], "z")]);
    analyzer.leave_context();
    analyzer.leave_location();
    analyzer.leave_location();
    assert!(analyzer.location.is_empty());
}
