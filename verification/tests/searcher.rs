use reactive_core::searcher::Argument;
use reactive_core::searcher::Chain;
use reactive_core::searcher::CompletedFragmentId;
use reactive_core::searcher::CompletionSuggestion;
use reactive_core::searcher::Data;
use reactive_core::searcher::FragmentAddedByPickingSuggestion;
use reactive_core::searcher::Notification;
use reactive_core::searcher::ParsedInput;
use reactive_core::searcher::Request;
use reactive_core::searcher::Suggestion;
use reactive_core::searcher::Suggestions;

fn suggestion(name: &str) -> CompletionSuggestion {
    CompletionSuggestion { name: name.to_string() }
}

/// The call that a parser finds in the input with one letter added.
fn parsed(input: &str) -> (usize, Chain) {
    let typed = format!("{}a", input);
    let leading_spaces = typed.chars().take_while(|c| *c == ' ').count();
    let mut words = Vec::new();
    let mut off = 0;
    let mut word = String::new();
    for c in typed.trim_start().chars() {
        if c == ' ' {
            if !word.is_empty() {
                words.push((off, std::mem::take(&mut word)));
                off = 0;
            }
            off += 1;
        } else {
            word.push(c);
        }
    }
    words.push((off, word));
    let func = words.remove(0).1;
    let args = words.into_iter().map(|(off, repr)| Argument { off, repr }).collect();
    (leading_spaces, Chain { off: leading_spaces, func, args })
}

fn input(text: &str) -> ParsedInput {
    let (leading_spaces, chain) = parsed(text);
    ParsedInput::new(leading_spaces, chain)
}

#[test]
fn parsed_input() {
    let parsed = input("");
    assert!(parsed.expression.is_none());
    assert_eq!(parsed.pattern, "");
    assert_eq!(parsed.pattern_offset, 0);

    let parsed = input("foo");
    assert!(parsed.expression.is_none());
    assert_eq!(parsed.pattern, "foo");

    let parsed = input(" foo");
    assert!(parsed.expression.is_none());
    assert_eq!(parsed.pattern_offset, 1);
    assert_eq!(parsed.pattern, "foo");
    assert_eq!(parsed.repr(), " foo");

    let parsed = input("foo  ");
    let expression = parsed.expression.clone().unwrap();
    assert_eq!(expression.func, "foo");
    assert_eq!(expression.args.len(), 0);
    assert_eq!(parsed.pattern_offset, 2);
    assert_eq!(parsed.pattern, "");
    assert_eq!(parsed.repr(), "foo  ");

    let parsed = input("foo bar");
    let expression = parsed.expression.clone().unwrap();
    assert_eq!(expression.func, "foo");
    assert_eq!(expression.args.len(), 0);
    assert_eq!(parsed.pattern_offset, 1);
    assert_eq!(parsed.pattern, "bar");

    let parsed = input("  foo  bar baz");
    let expression = parsed.expression.clone().unwrap();
    assert_eq!(expression.off, 2);
    assert_eq!(expression.args, vec![Argument { off: 2, repr: "bar".to_string() }]);
    assert_eq!(parsed.pattern, "baz");
    assert_eq!(parsed.repr(), "  foo  bar baz");
}

#[test]
fn completed_fragments() {
    let parsed = input("foo bar baz ");
    assert_eq!(parsed.next_completion_id(), CompletedFragmentId::Argument { id: 2 });
    assert_eq!(CompletedFragmentId::Function.completed_fragment(&parsed), Some("foo".to_string()));
    assert_eq!(CompletedFragmentId::Argument { id: 1 }.completed_fragment(&parsed), Some("baz".to_string()));
    assert_eq!(CompletedFragmentId::Argument { id: 2 }.completed_fragment(&parsed), None);
    let typing_function = input("fo");
    assert_eq!(typing_function.next_completion_id(), CompletedFragmentId::Function);
    assert_eq!(CompletedFragmentId::Function.completed_fragment(&typing_function), None);

    let fragment =
        FragmentAddedByPickingSuggestion { id: CompletedFragmentId::Function, picked_suggestion: suggestion("foo") };
    assert!(fragment.still_unmodified(&parsed));
    assert!(!fragment.still_unmodified(&input("fox bar")));
    assert!(!fragment.still_unmodified(&typing_function));
}

#[test]
fn suggestions_list_states() {
    assert!(Suggestions::Loading.is_loading());
    assert!(!Suggestions::Loading.is_error());
    assert!(Suggestions::Loading.list().is_none());
    assert!(Suggestions::Error("no".to_string()).is_error());
    let loaded = Suggestions::Loaded { list: vec![Suggestion::Completion(suggestion("f"))] };
    assert_eq!(loaded.list().map(|l| l.len()), Some(1));
    assert!(!loaded.is_loading());
}

#[test]
fn loading_and_receiving_the_list() {
    let (mut data, request) = Data::new();
    assert_eq!(request, Request::SuggestionList);
    assert!(data.current_list.is_loading());
    let answer = vec![Some(suggestion("TestFunction1")), None, Some(suggestion("TestFunction2"))];
    assert_eq!(data.suggestions_received(Ok(answer)), Notification::NewSuggestionList);
    assert_eq!(
        data.current_list,
        Suggestions::Loaded {
            list: vec![
                Suggestion::Completion(suggestion("TestFunction1")),
                Suggestion::Completion(suggestion("TestFunction2")),
            ]
        }
    );
    assert_eq!(data.suggestions_received(Err("timeout".to_string())), Notification::NewSuggestionList);
    assert_eq!(data.current_list, Suggestions::Error("timeout".to_string()));
}

#[test]
fn picking_completions() {
    let (mut data, _) = Data::new();
    // typing the function: the same fragment stays the next, nothing is reloaded
    assert_eq!(data.set_input(input(" Tes")), Request::Nothing);
    let (new_input, request) = data.pick_completion(suggestion("TestFunction1"));
    assert_eq!(new_input, " TestFunction1 ");
    assert_eq!(request, Request::Nothing);
    assert_eq!(data.current_list, Suggestions::Loaded { list: vec![] });
    assert_eq!(data.fragments_added_by_picking.len(), 1);
    assert_eq!(data.fragments_added_by_picking[0].id, CompletedFragmentId::Function);

    let (new_input, _) = data.pick_completion(suggestion("arg"));
    assert_eq!(new_input, " TestFunction1 arg ");
    assert_eq!(data.fragments_added_by_picking[1].id, CompletedFragmentId::Argument { id: 0 });
    assert_eq!(data.current_input.next_completion_id(), CompletedFragmentId::Argument { id: 1 });

    // the user changes the argument: the picked argument is forgotten
    assert_eq!(data.set_input(input(" TestFunction1 argument ")), Request::Nothing);
    assert_eq!(data.fragments_added_by_picking.len(), 1);
    assert_eq!(data.fragments_added_by_picking[0].picked_suggestion, suggestion("TestFunction1"));

    // the user goes back to typing the function: everything is forgotten, the list is asked for
    assert_eq!(data.set_input(input("Test")), Request::SuggestionList);
    assert!(data.current_list.is_loading());
    assert_eq!(data.fragments_added_by_picking.len(), 0);
}
