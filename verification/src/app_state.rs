use vstd::prelude::*;
use crate::connection::DatabaseConnection;
use crate::errors::VaultError;
use crate::search::{
    resviews, search_spec, SearchEngine, SearchMode, SearchQuery, SearchResult,
};
use crate::store::Vault;
use crate::text::push_char;

verus! {

/// Where the interactive session stands.
#[derive(Debug, Clone, Copy, PartialEq, Eq)]
pub enum AppState {
    SearchInput,
    ResultsList,
    ViewingResult,
}

/// One key press, as the session's state machine reads it.
#[derive(Debug, Clone, Copy, PartialEq, Eq)]
pub enum Key {
    Char(char),
    Backspace,
    Enter,
    Esc,
    Up,
    Down,
    Other,
}

/// The words a query is split into: maximal runs of non-whitespace.
pub open spec fn split_ws_go(s: Seq<char>, i: int, acc: Seq<Seq<char>>) -> Seq<Seq<char>>
    decreases s.len() - i when 0 <= i <= s.len()
{
    let w = crate::json_text::skip_ws_spec(s, i);
    if !(i <= w <= s.len()) {
        acc
    } else if w >= s.len() {
        acc
    } else {
        let e = crate::dates::scan_word(s, w);
        if w < e <= s.len() {
            split_ws_go(s, e, acc.push(s.subrange(w, e)))
        } else {
            acc
        }
    }
}

pub open spec fn split_ws(s: Seq<char>) -> Seq<Seq<char>> {
    split_ws_go(s, 0, Seq::empty())
}

/// Splits text into whitespace-separated words.
pub fn split_ws_exec(s: &str) -> (r: Vec<String>)
    ensures
        crate::search::str_views(r@) == split_ws(s@),
{
    let v = crate::json_text::str_to_chars(s);
    let mut out: Vec<String> = Vec::new();
    let mut i: usize = 0;
    proof {
        assert(crate::search::str_views(out@) =~= Seq::<Seq<char>>::empty());
    }
    loop
        invariant
            i <= v@.len(),
            v@ == s@,
            split_ws(s@) == split_ws_go(v@, i as int, crate::search::str_views(out@)),
        decreases v@.len() - i,
    {
        let w = crate::json_text::skip_ws(&v, i);
        if w >= v.len() {
            return out;
        }
        let e = crate::dates::scan_word_exec(&v, w);
        if !(w < e) {
            proof {
                crate::json_text::lemma_skip_ws_bounds(v@, i as int);
                assert(!crate::json_text::is_ws(v@[w as int]));
                assert(crate::dates::scan_word(v@, w as int) == crate::dates::scan_word(v@, w + 1));
                crate::dates::lemma_scan_word(v@, w + 1);
                assert(false);
            }
            return out;
        }
        let word = crate::parser::subvec(&v, w, e);
        let ghost out_old = out@;
        out.push(crate::json_text::chars_to_string(&word, 0, word.len()));
        proof {
            assert(word@.subrange(0, word@.len() as int) =~= word@);
            assert(crate::search::str_views(out@) =~= crate::search::str_views(out_old).push(
                v@.subrange(w as int, e as int),
            ));
        }
        i = e;
    }
}

/// The interactive session: the state, the query text being typed, the
/// current results, and the selection.
#[derive(Debug)]
pub struct App {
    pub state: AppState,
    pub search_input: String,
    pub search_results: Vec<SearchResult>,
    pub selected_index: usize,
    pub should_quit: bool,
}

/// The mathematical value of an [`App`].
pub struct AppView {
    pub state: AppState,
    pub search_input: Seq<char>,
    pub search_results: Seq<crate::search::SearchResultView>,
    pub selected_index: int,
    pub should_quit: bool,
}

impl View for App {
    type V = AppView;

    open spec fn view(&self) -> AppView {
        AppView {
            state: self.state,
            search_input: self.search_input@,
            search_results: resviews(self.search_results@),
            selected_index: self.selected_index as int,
            should_quit: self.should_quit,
        }
    }
}

impl App {
    /// A fresh session: typing an empty query, nothing found yet.
    pub fn new() -> (r: App)
        ensures
            r.state == AppState::SearchInput,
            r.search_input@ == Seq::<char>::empty(),
            r.search_results@.len() == 0,
            r.selected_index == 0,
            !r.should_quit,
    {
        App {
            state: AppState::SearchInput,
            search_input: String::new(),
            search_results: Vec::new(),
            selected_index: 0,
            should_quit: false,
        }
    }

    /// One key press, dispatched on the state.
    pub fn handle_key(&mut self, key: Key)
        ensures
            match old(self).state {
                AppState::SearchInput => final(self)@ == spec_search_input_step(old(self)@, key),
                AppState::ResultsList => final(self)@ == spec_results_list_step(old(self)@, key),
                AppState::ViewingResult => final(self)@ == spec_viewing_step(old(self)@, key),
            },
    {
        match self.state {
            AppState::SearchInput => self.handle_search_input(key),
            AppState::ResultsList => self.handle_results_list(key),
            AppState::ViewingResult => self.handle_viewing_result(key),
        }
    }

    /// Typing: characters extend the query, backspace shortens it, enter
    /// moves to the results once something was typed, escape quits.
    pub fn handle_search_input(&mut self, key: Key)
        requires
            old(self).state == AppState::SearchInput,
        ensures
            final(self)@ == spec_search_input_step(old(self)@, key),
    {
        match key {
            Key::Char(c) => {
                push_char(&mut self.search_input, c);
            },
            Key::Backspace => {
                pop_char(&mut self.search_input);
            },
            Key::Enter => {
                if self.search_input.unicode_len() > 0 {
                    self.state = AppState::ResultsList;
                }
            },
            Key::Esc => {
                self.should_quit = true;
            },
            _ => {},
        }
    }

    /// Browsing: up and down move the selection inside bounds, enter opens
    /// a hit where there is one, escape goes back to typing.
    pub fn handle_results_list(&mut self, key: Key)
        requires
            old(self).state == AppState::ResultsList,
        ensures
            final(self)@ == spec_results_list_step(old(self)@, key),
    {
        match key {
            Key::Up => {
                if self.selected_index > 0 {
                    self.selected_index = self.selected_index - 1;
                }
            },
            Key::Down => {
                if self.search_results.len() > 0 && self.selected_index < self.search_results.len()
                    - 1 {
                    self.selected_index = self.selected_index + 1;
                }
            },
            Key::Enter => {
                if self.search_results.len() > 0 {
                    self.state = AppState::ViewingResult;
                }
            },
            Key::Esc => {
                self.state = AppState::SearchInput;
                self.selected_index = 0;
            },
            _ => {},
        }
    }

    /// Reading one hit: escape goes back to the list.
    pub fn handle_viewing_result(&mut self, key: Key)
        requires
            old(self).state == AppState::ViewingResult,
        ensures
            final(self)@ == spec_viewing_step(old(self)@, key),
    {
        match key {
            Key::Esc => {
                self.state = AppState::ResultsList;
            },
            _ => {},
        }
    }

    /// Runs the typed query, all words required, and selects the first hit.
    pub fn perform_search<C: DatabaseConnection>(
        &mut self,
        engine: &SearchEngine<C>,
        vault: &Vault,
    ) -> (r: Result<(), VaultError>)
        requires
            vault.wf(),
        ensures
            !engine.connection.connected() ==> r == Err::<(), VaultError>(VaultError::NotConnected)
                && *final(self) == *old(self),
            engine.connection.connected() ==> r.is_ok() && final(self)@ == (AppView {
                search_results: search_spec(vault.rows@, session_query(old(self)@.search_input)),
                selected_index: 0,
                ..old(self)@
            }),
    {
        let keywords = split_ws_exec(self.search_input.as_str());
        let mut query = SearchQuery::default();
        query.keywords = keywords;
        query.mode = SearchMode::And;
        proof {
            assert(query@ == session_query(self.search_input@));
        }
        match engine.search(vault, &query) {
            Err(e) => Err(e),
            Ok(results) => {
                self.search_results = results;
                self.selected_index = 0;
                Ok(())
            },
        }
    }
}

/// What one key does while typing: characters extend the query, backspace
/// shortens it, enter moves to the results once something was typed,
/// escape quits.
pub open spec fn spec_search_input_step(a: AppView, key: Key) -> AppView {
    match key {
        Key::Char(c) => AppView { search_input: a.search_input.push(c), ..a },
        Key::Backspace => {
            if a.search_input.len() > 0 {
                AppView { search_input: a.search_input.drop_last(), ..a }
            } else {
                a
            }
        },
        Key::Enter => {
            if a.search_input.len() > 0 {
                AppView { state: AppState::ResultsList, ..a }
            } else {
                a
            }
        },
        Key::Esc => AppView { should_quit: true, ..a },
        _ => a,
    }
}

/// What one key does while browsing: up and down keep the selection inside
/// the results, enter opens a hit where there is one, escape returns to
/// typing and resets the selection.
pub open spec fn spec_results_list_step(a: AppView, key: Key) -> AppView {
    match key {
        Key::Up => {
            if a.selected_index > 0 {
                AppView { selected_index: a.selected_index - 1, ..a }
            } else {
                a
            }
        },
        Key::Down => {
            if a.search_results.len() > 0 && a.selected_index < a.search_results.len() - 1 {
                AppView { selected_index: a.selected_index + 1, ..a }
            } else {
                a
            }
        },
        Key::Enter => {
            if a.search_results.len() > 0 {
                AppView { state: AppState::ViewingResult, ..a }
            } else {
                a
            }
        },
        Key::Esc => AppView { state: AppState::SearchInput, selected_index: 0, ..a },
        _ => a,
    }
}

/// What one key does while reading one hit: escape goes back to the list.
pub open spec fn spec_viewing_step(a: AppView, key: Key) -> AppView {
    match key {
        Key::Esc => AppView { state: AppState::ResultsList, ..a },
        _ => a,
    }
}

/// The query the session runs: the typed words, all required, with the
/// default bounds.
pub open spec fn session_query(input: Seq<char>) -> crate::search::SearchQueryView {
    crate::search::SearchQueryView {
        keywords: split_ws(input),
        mode: SearchMode::And,
        project_filter: None,
        project_filters: None,
        date_from: None,
        date_to: None,
        favorites_only: None,
        limit: Some(100usize),
    }
}

/// Relies on `String::pop`: removes the last character, if any.
#[verifier::external_body]
pub fn pop_char(s: &mut String)
    ensures
        old(s)@.len() == 0 ==> final(s)@ == old(s)@,
        old(s)@.len() > 0 ==> final(s)@ == old(s)@.drop_last(),
{
    s.pop();
}

} // verus!
