//! The state of the searcher: the input that the user types, the
//! suggestions for completing it, and the suggestions that were picked.

use vstd::prelude::*;

verus! {

/// An entry of the database of suggestions.
#[derive(Clone, Debug, PartialEq, Eq)]
pub struct CompletionSuggestion {
    pub name: String,
}

/// A single suggestion on the Searcher suggestion list.
#[derive(Clone, Debug, PartialEq, Eq)]
pub enum Suggestion {
    /// Suggestion for input completion: possible functions, arguments, etc.
    Completion(CompletionSuggestion),
}

/// List of suggestions available in Searcher.
#[derive(Clone, Debug, PartialEq, Eq)]
pub enum Suggestions {
    /// The suggestion list is still loading from the Language Server.
    Loading,
    /// The suggestion list is loaded.
    Loaded { list: Vec<Suggestion> },
    /// Loading suggestion list resulted in error.
    Error(String),
}

impl Suggestions {
    /// Check if suggestion list is still loading.
    pub fn is_loading(&self) -> (r: bool)
        ensures
            r == (self is Loading),
    {
        match self {
            Suggestions::Loading => true,
            _ => false,
        }
    }

    /// Check if retrieving suggestion list was unsuccessful
    pub fn is_error(&self) -> (r: bool)
        ensures
            r == (self is Error),
    {
        match self {
            Suggestions::Error(_) => true,
            _ => false,
        }
    }

    /// Get the list of suggestions. Returns None if still loading or error
    /// was returned.
    pub fn list(&self) -> (r: Option<&Vec<Suggestion>>)
        ensures
            match self {
                Suggestions::Loaded { list } => r == Some(list),
                _ => r is None,
            },
    {
        match self {
            Suggestions::Loaded { list } => Some(list),
            _ => None,
        }
    }
}

/// The notification emitted by Searcher Controller
#[derive(Clone, Copy, Debug, PartialEq, Eq, Structural)]
pub enum Notification {
    /// A new Suggestion list is available.
    NewSuggestionList,
}

/// What the searcher asks of the world around it.
#[derive(Clone, Copy, Debug, PartialEq, Eq, Structural)]
pub enum Request {
    /// Nothing.
    Nothing,
    /// The language server is to be asked for a new list of suggestions.
    SuggestionList,
}

/// An argument of a call, with the number of blanks before it.
#[derive(Clone, Debug, PartialEq, Eq)]
pub struct Argument {
    pub off: usize,
    pub repr: String,
}

/// A function and the arguments that it is applied to, with the number of
/// blanks before the function.
#[derive(Clone, Debug, PartialEq, Eq)]
pub struct Chain {
    pub off: usize,
    pub func: String,
    pub args: Vec<Argument>,
}

/// A Searcher Input which is parsed to the _expression_ and _pattern_
/// parts.
///
/// We parse the input for better understanding what user wants to add.
#[derive(Clone, Debug, PartialEq, Eq)]
pub struct ParsedInput {
    /// The part of input which is treated as completed function and some
    /// set of arguments.
    pub expression: Option<Chain>,
    /// An offset between expression and pattern.
    pub pattern_offset: usize,
    /// The part of input being a function/argument which is still typed by
    /// user. It is used for filtering suggestions.
    pub pattern: String,
}

/// An identification of input fragment filled by picking suggestion.
#[derive(Clone, Copy, Debug, PartialEq, Eq, Structural)]
pub enum CompletedFragmentId {
    /// The called "function" part.
    Function,
    /// The `id`th argument of the called function.
    Argument { id: usize },
}

/// A fragment filled by single picked completion suggestion.
///
/// We store such information in Searcher to better suggest the potential
/// arguments, and to know what imports should be added when inserting
/// node.
#[derive(Clone, Debug, PartialEq, Eq)]
pub struct FragmentAddedByPickingSuggestion {
    pub id: CompletedFragmentId,
    pub picked_suggestion: CompletionSuggestion,
}

/// The text without its last character.
pub open spec fn without_last(text: Seq<char>) -> Seq<char> {
    if text.len() == 0 {
        text
    } else {
        text.drop_last()
    }
}

/// As many blanks as the number says.
pub open spec fn blanks(n: nat) -> Seq<char>
    decreases n,
{
    if n == 0 {
        Seq::empty()
    } else {
        blanks((n - 1) as nat).push(' ')
    }
}

/// The text of the first `n` arguments, each behind its blanks.
pub open spec fn arguments_text(args: Seq<Argument>, n: int) -> Seq<char>
    decreases n,
{
    if n <= 0 {
        Seq::empty()
    } else {
        arguments_text(args, n - 1) + blanks(args[n - 1].off as nat) + args[n - 1].repr@
    }
}

/// The text of a call.
pub open spec fn chain_text(chain: Chain) -> Seq<char> {
    blanks(chain.off as nat) + chain.func@ + arguments_text(chain.args@, chain.args@.len() as int)
}

/// The text of an input: the expression, the blanks between expression and
/// pattern, and the pattern.
pub open spec fn input_text(input: ParsedInput) -> Seq<char> {
    (match input.expression {
        Some(chain) => chain_text(chain),
        None => Seq::empty(),
    }) + blanks(input.pattern_offset as nat) + input.pattern@
}

/// The fragment of the input with the given identification.
pub open spec fn fragment_of(id: CompletedFragmentId, input: ParsedInput) -> Option<Seq<char>> {
    match input.expression {
        None => None,
        Some(chain) => match id {
            CompletedFragmentId::Function => Some(chain.func@),
            CompletedFragmentId::Argument { id } => if id < chain.args@.len() {
                Some(chain.args@[id as int].repr@)
            } else {
                None
            },
        },
    }
}

/// The identification of the fragment that the next picked suggestion
/// fills.
pub open spec fn next_id(input: ParsedInput) -> CompletedFragmentId {
    match input.expression {
        None => CompletedFragmentId::Function,
        Some(chain) => CompletedFragmentId::Argument { id: chain.args@.len() as usize },
    }
}

/// The text with its last character removed.
fn pop_last(text: String) -> (r: String)
    ensures
        r@ == without_last(text@),
{
    let n = text.as_str().unicode_len();
    if n == 0 {
        text
    } else {
        let r = String::from_str(text.as_str().substring_char(0, n - 1));
        proof {
            assert(text@.subrange(0, n - 1) =~= text@.drop_last());
        }
        r
    }
}

/// Adds blanks to the text.
fn push_blanks(text: &mut String, n: usize)
    ensures
        final(text)@ == old(text)@ + blanks(n as nat),
{
    let mut i: usize = 0;
    proof {
        assert(text@ =~= old(text)@ + blanks(0));
    }
    while i < n
        invariant
            i <= n,
            text@ == old(text)@ + blanks(i as nat),
        decreases n - i,
    {
        text.append(" ");
        proof {
            reveal_strlit(" ");
            assert(" "@ =~= seq![' ']);
            assert(text@ =~= old(text)@ + blanks((i + 1) as nat));
        }
        i = i + 1;
    }
}

impl Chain {
    /// The text of the call.
    pub fn repr(&self) -> (r: String)
        ensures
            r@ == chain_text(*self),
    {
        let mut r = String::new();
        push_blanks(&mut r, self.off);
        r.append(self.func.as_str());
        let ghost start = r@;
        let mut i: usize = 0;
        proof {
            assert(r@ =~= start + arguments_text(self.args@, 0));
        }
        while i < self.args.len()
            invariant
                i <= self.args.len(),
                r@ == start + arguments_text(self.args@, i as int),
            decreases self.args.len() - i,
        {
            push_blanks(&mut r, self.args[i].off);
            r.append(self.args[i].repr.as_str());
            proof {
                assert(r@ =~= start + arguments_text(self.args@, i as int + 1));
            }
            i = i + 1;
        }
        proof {
            assert(start =~= blanks(self.off as nat) + self.func@);
        }
        r
    }
}

impl ParsedInput {
    /// The input before anything was typed.
    pub fn empty() -> (r: Self)
        ensures
            r.expression is None,
            r.pattern_offset == 0,
            r.pattern@.len() == 0,
    {
        ParsedInput { expression: None, pattern_offset: 0, pattern: String::new() }
    }

    /// Constructor from the parsed input. To properly guess what is "still
    /// typed argument", one letter is added to the input before it is parsed,
    /// as if the user had typed it: the letter is part of the last argument
    /// (or of the function if there is no argument), or is a new argument.
    /// `prefix` is the call that was parsed so, and `leading_spaces` is the
    /// number of blanks before it. The last argument, without the letter, is
    /// the pattern; where there is no argument, the function is.
    pub fn new(leading_spaces: usize, prefix: Chain) -> (r: Self)
        ensures
            prefix.args@.len() > 0 ==> {
                &&& r.expression matches Some(chain)
                &&& chain.off == leading_spaces
                &&& chain.func == prefix.func
                &&& chain.args@ == prefix.args@.drop_last()
                &&& r.pattern_offset == prefix.args@.last().off
                &&& r.pattern@ == without_last(prefix.args@.last().repr@)
            },
            prefix.args@.len() == 0 ==> {
                &&& r.expression is None
                &&& r.pattern_offset == leading_spaces
                &&& r.pattern@ == without_last(prefix.func@)
            },
    {
        let mut prefix = prefix;
        let last_arg = prefix.args.pop();
        match last_arg {
            Some(last_arg) => ParsedInput {
                expression: Some(Chain { off: leading_spaces, func: prefix.func, args: prefix.args }),
                pattern_offset: last_arg.off,
                pattern: pop_last(last_arg.repr),
            },
            None => ParsedInput {
                expression: None,
                pattern_offset: leading_spaces,
                pattern: pop_last(prefix.func),
            },
        }
    }

    /// Returns the id of the next fragment potentially filled by picking
    /// completion suggestion.
    pub fn next_completion_id(&self) -> (r: CompletedFragmentId)
        ensures
            r == next_id(*self),
    {
        match &self.expression {
            None => CompletedFragmentId::Function,
            Some(expression) => CompletedFragmentId::Argument { id: expression.args.len() },
        }
    }

    /// The text of the input.
    pub fn repr(&self) -> (r: String)
        ensures
            r@ == input_text(*self),
    {
        let mut r = match &self.expression {
            Some(chain) => chain.repr(),
            None => String::new(),
        };
        push_blanks(&mut r, self.pattern_offset);
        r.append(self.pattern.as_str());
        r
    }
}

impl CompletedFragmentId {
    /// Get the picked fragment from the Searcher's input.
    pub fn completed_fragment(&self, input: &ParsedInput) -> (r: Option<String>)
        ensures
            match fragment_of(*self, *input) {
                Some(text) => r matches Some(found) && found@ == text,
                None => r is None,
            },
    {
        match &input.expression {
            None => None,
            Some(expr) => match self {
                CompletedFragmentId::Function => Some(expr.func.clone()),
                CompletedFragmentId::Argument { id } => if *id < expr.args.len() {
                    Some(expr.args[*id].repr.clone())
                } else {
                    None
                },
            },
        }
    }
}

impl FragmentAddedByPickingSuggestion {
    /// The fragment is in the input as it was picked.
    pub open spec fn spec_still_unmodified(self, input: ParsedInput) -> bool {
        fragment_of(self.id, input) == Some(self.picked_suggestion.name@)
    }

    /// Check if the picked fragment is still unmodified by user.
    pub fn still_unmodified(&self, input: &ParsedInput) -> (r: bool)
        ensures
            r == self.spec_still_unmodified(*input),
    {
        match self.id.completed_fragment(input) {
            Some(fragment) => fragment == self.picked_suggestion.name,
            None => false,
        }
    }
}

/// A controller state.
#[derive(Clone, Debug, PartialEq, Eq)]
pub struct Data {
    /// The current searcher's input.
    pub current_input: ParsedInput,
    /// The suggestion list which should be displayed.
    pub current_list: Suggestions,
    /// All fragments of input which were added by picking suggestions. If
    /// the fragment will be changed by user, it will be removed from this
    /// list.
    pub fragments_added_by_picking: Vec<FragmentAddedByPickingSuggestion>,
}

/// The identifications and names of those among the first `n` fragments
/// that are in the input as they were picked.
pub open spec fn unmodified(
    fragments: Seq<FragmentAddedByPickingSuggestion>,
    input: ParsedInput,
    n: int,
) -> Seq<(CompletedFragmentId, Seq<char>)>
    decreases n,
{
    if n <= 0 {
        Seq::empty()
    } else if fragments[n - 1].spec_still_unmodified(input) {
        unmodified(fragments, input, n - 1).push((fragments[n - 1].id, fragments[n - 1].picked_suggestion.name@))
    } else {
        unmodified(fragments, input, n - 1)
    }
}

/// The identifications and names of the fragments.
pub open spec fn picked(fragments: Seq<FragmentAddedByPickingSuggestion>) -> Seq<(CompletedFragmentId, Seq<char>)> {
    Seq::new(fragments.len(), |i: int| (fragments[i].id, fragments[i].picked_suggestion.name@))
}

/// The suggestions for the entries that were found, in their order.
pub open spec fn found_suggestions(entries: Seq<Option<CompletionSuggestion>>, n: int) -> Seq<Seq<char>>
    decreases n,
{
    if n <= 0 {
        Seq::empty()
    } else {
        match entries[n - 1] {
            Some(entry) => found_suggestions(entries, n - 1).push(entry.name@),
            None => found_suggestions(entries, n - 1),
        }
    }
}

/// The names of the suggestions.
pub open spec fn suggestion_names(list: Seq<Suggestion>) -> Seq<Seq<char>> {
    Seq::new(list.len(), |i: int| list[i]->Completion_0.name@)
}

impl Data {
    /// The state of a searcher that was just opened: nothing is typed, and
    /// the first list of suggestions is to be loaded.
    pub fn new() -> (r: (Self, Request))
        ensures
            r.0.current_input.expression is None,
            r.0.current_list is Loading,
            r.0.fragments_added_by_picking@.len() == 0,
            r.1 is SuggestionList,
    {
        let mut data = Data {
            current_input: ParsedInput::empty(),
            current_list: Suggestions::Loading,
            fragments_added_by_picking: Vec::new(),
        };
        let request = data.reload_list();
        (data, request)
    }

    /// Set the Searcher Input.
    ///
    /// This function should be called each time user modifies Searcher
    /// input in view. It may result in a new suggestion list: the list is
    /// loaded anew if another fragment is the next to be completed.
    pub fn set_input(&mut self, parsed_input: ParsedInput) -> (r: Request)
        ensures
            final(self).current_input == parsed_input,
            picked(final(self).fragments_added_by_picking@) == unmodified(
                old(self).fragments_added_by_picking@,
                parsed_input,
                old(self).fragments_added_by_picking@.len() as int,
            ),
            next_id(old(self).current_input) == next_id(parsed_input) ==> r is Nothing && final(self).current_list
                == old(self).current_list,
            next_id(old(self).current_input) != next_id(parsed_input) ==> {
                &&& r == reload_request(parsed_input)
                &&& reloaded(final(self).current_list, parsed_input)
            },
    {
        let old_id = self.current_input.next_completion_id();
        let new_id = parsed_input.next_completion_id();
        self.current_input = parsed_input;
        self.invalidate_fragments_added_by_picking();
        if old_id != new_id {
            self.reload_list()
        } else {
            Request::Nothing
        }
    }

    /// User picked a completion suggestion.
    ///
    /// This function should be called when user chooses some completion
    /// suggestion. It still will be editing the input. The picked suggestion
    /// will be remembered, and the new text of the input is returned.
    pub fn pick_completion(&mut self, picked_suggestion: CompletionSuggestion) -> (r: (String, Request))
        ensures
            final(self).current_input.pattern_offset == 1,
            final(self).current_input.pattern@.len() == 0,
            final(self).current_input.expression matches Some(chain) && (match old(self).current_input.expression {
                None => chain.off == old(self).current_input.pattern_offset && chain.func@
                    == picked_suggestion.name@ && chain.args@.len() == 0,
                Some(before) => chain.off == before.off && chain.func == before.func && chain.args@.len()
                    == before.args@.len() + 1 && chain.args@.drop_last() == before.args@
                    && chain.args@.last().off == old(self).current_input.pattern_offset
                    && chain.args@.last().repr@ == picked_suggestion.name@,
            }),
            r.0@ == input_text(final(self).current_input),
            final(self).fragments_added_by_picking@ == old(self).fragments_added_by_picking@.push(
                FragmentAddedByPickingSuggestion { id: next_id(old(self).current_input), picked_suggestion },
            ),
            r.1 is Nothing,
            reloaded(final(self).current_list, final(self).current_input),
    {
        let added = picked_suggestion.name.clone();
        let id = self.current_input.next_completion_id();
        let pattern_offset = self.current_input.pattern_offset;
        let new_expression = match self.current_input.expression.take() {
            None => Chain { off: pattern_offset, func: added, args: Vec::new() },
            Some(expression) => {
                let mut expression = expression;
                expression.args.push(Argument { off: pattern_offset, repr: added });
                expression
            },
        };
        let new_parsed_input = ParsedInput {
            expression: Some(new_expression),
            pattern_offset: 1,
            pattern: String::new(),
        };
        let new_input = new_parsed_input.repr();
        self.current_input = new_parsed_input;
        self.fragments_added_by_picking.push(FragmentAddedByPickingSuggestion { id, picked_suggestion });
        let request = self.reload_list();
        (new_input, request)
    }

    /// Forgets the picked fragments that the user has changed.
    pub fn invalidate_fragments_added_by_picking(&mut self)
        ensures
            final(self).current_input == old(self).current_input,
            final(self).current_list == old(self).current_list,
            picked(final(self).fragments_added_by_picking@) == unmodified(
                old(self).fragments_added_by_picking@,
                old(self).current_input,
                old(self).fragments_added_by_picking@.len() as int,
            ),
    {
        let mut kept: Vec<FragmentAddedByPickingSuggestion> = Vec::new();
        let mut i: usize = 0;
        proof {
            assert(picked(kept@) =~= unmodified(self.fragments_added_by_picking@, self.current_input, 0));
        }
        while i < self.fragments_added_by_picking.len()
            invariant
                i <= self.fragments_added_by_picking.len(),
                *self == *old(self),
                picked(kept@) == unmodified(self.fragments_added_by_picking@, self.current_input, i as int),
            decreases self.fragments_added_by_picking.len() - i,
        {
            let fragment = &self.fragments_added_by_picking[i];
            if fragment.still_unmodified(&self.current_input) {
                let ghost before = kept@;
                kept.push(
                    FragmentAddedByPickingSuggestion {
                        id: fragment.id,
                        picked_suggestion: CompletionSuggestion { name: fragment.picked_suggestion.name.clone() },
                    },
                );
                proof {
                    assert(picked(kept@) =~= picked(before).push((fragment.id, fragment.picked_suggestion.name@)));
                }
            }
            i = i + 1;
        }
        self.fragments_added_by_picking = kept;
    }

    /// Reload Suggestion List.
    ///
    /// Where the function is to be completed next, the current list is set
    /// as "Loading" and the language server is to be asked for a new list.
    /// Where an argument is to be completed, the list is empty.
    pub fn reload_list(&mut self) -> (r: Request)
        ensures
            final(self).current_input == old(self).current_input,
            final(self).fragments_added_by_picking == old(self).fragments_added_by_picking,
            r == reload_request(old(self).current_input),
            reloaded(final(self).current_list, old(self).current_input),
    {
        let next_completion = self.current_input.next_completion_id();
        match next_completion {
            CompletedFragmentId::Function => {
                self.current_list = Suggestions::Loading;
                Request::SuggestionList
            },
            CompletedFragmentId::Argument { .. } => {
                self.current_list = Suggestions::Loaded { list: Vec::new() };
                Request::Nothing
            },
        }
    }

    /// The language server has answered: with the entries of the database
    /// for the suggestions of its list, where the database has them, or with
    /// an error. The list of the entries that were found is set, or the
    /// error.
    pub fn suggestions_received(&mut self, response: Result<Vec<Option<CompletionSuggestion>>, String>) -> (r:
        Notification)
        ensures
            final(self).current_input == old(self).current_input,
            final(self).fragments_added_by_picking == old(self).fragments_added_by_picking,
            match response {
                Ok(entries) => final(self).current_list matches Suggestions::Loaded { list } && (forall|i: int|
                    0 <= i < list@.len() ==> (#[trigger] list@[i]) is Completion) && suggestion_names(list@)
                    == found_suggestions(entries@, entries@.len() as int),
                Err(error) => final(self).current_list == Suggestions::Error(error),
            },
    {
        let new_list = match response {
            Ok(entries) => {
                let mut list: Vec<Suggestion> = Vec::new();
                let mut entries = entries;
                let ghost all = entries@;
                let mut i: usize = 0;
                proof {
                    assert(suggestion_names(list@) =~= found_suggestions(all, 0));
                }
                while i < entries.len()
                    invariant
                        i <= entries.len(),
                        entries@.len() == all.len(),
                        forall|j: int| i <= j < entries@.len() ==> entries@[j] == all[j],
                        forall|j: int| 0 <= j < list@.len() ==> (#[trigger] list@[j]) is Completion,
                        suggestion_names(list@) == found_suggestions(all, i as int),
                    decreases entries.len() - i,
                {
                    let ghost before = list@;
                    let mut entry: Option<CompletionSuggestion> = None;
                    std::mem::swap(&mut entries[i], &mut entry);
                    match entry {
                        Some(entry) => {
                            list.push(Suggestion::Completion(entry));
                            proof {
                                assert(suggestion_names(list@) =~= suggestion_names(before).push(entry.name@));
                            }
                        },
                        None => {},
                    }
                    i = i + 1;
                }
                Suggestions::Loaded { list }
            },
            Err(error) => Suggestions::Error(error),
        };
        self.current_list = new_list;
        Notification::NewSuggestionList
    }
}

/// What is asked for when the list of suggestions is loaded anew.
pub open spec fn reload_request(input: ParsedInput) -> Request {
    if next_id(input) is Function {
        Request::SuggestionList
    } else {
        Request::Nothing
    }
}

/// The list of suggestions is what it is after it was loaded anew.
pub open spec fn reloaded(list: Suggestions, input: ParsedInput) -> bool {
    if next_id(input) is Function {
        list is Loading
    } else {
        list matches Suggestions::Loaded { list } && list@.len() == 0
    }
}

} // verus!
