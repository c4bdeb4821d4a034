use tally42::interner::StringInterner;
use tally42::repl::{Repl, ReplReply};
use tally42::trie::Trie;

fn sorted_completions(trie: &Trie, input: &str) -> Vec<(String, Option<u32>)> {
    let mut results = trie.get_completions(input);
    results.sort_by(|a, b| a.0.cmp(&b.0));
    results
}

#[test]
fn interns_same_string_to_same_id() {
    let mut interner = StringInterner::new();
    let first = interner.intern("alpha");
    let second = interner.intern("alpha");

    assert_eq!(first, second);
    assert_eq!(interner.len(), 1);
    assert_eq!(interner.len(), 1);
}

#[test]
fn assigns_incrementing_ids_for_new_strings() {
    let mut interner = StringInterner::new();
    let alpha = interner.intern("alpha");
    let beta = interner.intern("beta");
    let gamma = interner.intern("gamma");

    assert_eq!(alpha, 0);
    assert_eq!(beta, 1);
    assert_eq!(gamma, 2);
    assert_eq!(interner.len(), 3);
    assert_eq!(interner.len(), 3);
}

#[test]
fn interning_existing_string_does_not_advance_counter() {
    let mut interner = StringInterner::new();
    let first = interner.intern("repeat");
    let after_first = interner.len();
    let second = interner.intern("repeat");

    assert_eq!(first, second);
    assert_eq!(after_first, 1);
    assert_eq!(interner.len(), after_first);
}

#[test]
fn treats_whitespace_variants_as_distinct_keys() {
    let mut interner = StringInterner::new();
    let plain = interner.intern("token");
    let padded = interner.intern(" token ");
    let with_newline = interner.intern("token\n");

    assert_ne!(plain, padded);
    assert_ne!(plain, with_newline);
    assert_ne!(padded, with_newline);
    assert_eq!(interner.len(), 3);
}

#[test]
fn get_interned_returns_none_for_missing_key() {
    let mut interner = StringInterner::new();
    interner.intern("known");

    assert_eq!(interner.get_interned("known"), Some(0));
    assert_eq!(interner.get_interned("unknown"), None);
}

#[test]
fn resolve_returns_original_string_for_valid_id() {
    let mut interner = StringInterner::new();
    let alpha = interner.intern("alpha");
    let beta = interner.intern("beta");

    assert_eq!(interner.resolve(alpha), Some("alpha"));
    assert_eq!(interner.resolve(beta), Some("beta"));
}

#[test]
fn resolve_returns_none_for_unknown_id() {
    let mut interner = StringInterner::new();
    interner.intern("alpha");

    assert_eq!(interner.resolve(1), None);
    assert_eq!(interner.resolve(42), None);
}

#[test]
fn intern_get_and_resolve_are_consistent() {
    let mut interner = StringInterner::new();
    interner.intern("alpha");
    interner.intern("beta");
    interner.intern("gamma");

    for token in ["alpha", "beta", "gamma"] {
        let id = interner
            .get_interned(token)
            .expect("token should have been interned");
        assert_eq!(interner.resolve(id), Some(token));
    }
}

#[test]
fn get_returns_inserted_single_token_value() {
    let mut trie = Trie::new();
    trie.add_string("foo", 1);
    assert_eq!(trie.get("foo"), Some(1));
}

#[test]
fn get_returns_none_for_missing_key() {
    let mut trie = Trie::new();
    trie.add_string("foo bar", 1);

    assert_eq!(trie.get("foo baz"), None);
    assert_eq!(trie.get("unknown"), None);
}

#[test]
fn get_handles_shared_prefix_paths() {
    let mut trie = Trie::new();
    trie.add_string("foo bar", 10);
    trie.add_string("foo baz", 20);

    assert_eq!(trie.get("foo bar"), Some(10));
    assert_eq!(trie.get("foo baz"), Some(20));
    assert_eq!(trie.get("foo"), None);
}

#[test]
fn get_keeps_values_for_prefix_and_longer_path() {
    let mut trie = Trie::new();
    trie.add_string("foo", 7);
    trie.add_string("foo bar", 8);

    assert_eq!(trie.get("foo"), Some(7));
    assert_eq!(trie.get("foo bar"), Some(8));
}

#[test]
fn get_reflects_overwritten_value() {
    let mut trie = Trie::new();
    trie.add_string("foo bar", 3);
    trie.add_string("foo bar", 9);

    assert_eq!(trie.get("foo bar"), Some(9));
}

#[test]
fn get_uses_root_value_for_empty_or_whitespace_input() {
    let mut trie = Trie::new();
    trie.add_string("", 42);
    assert_eq!(trie.get(""), Some(42));
    assert_eq!(trie.get("   \n\t"), Some(42));

    trie.add_string(" ", 99);
    assert_eq!(trie.get(""), Some(99));
}

#[test]
fn get_completions_matches_partial_last_token() {
    let mut trie = Trie::new();
    trie.add_string("foo bar", 1);
    trie.add_string("foo baz", 2);
    trie.add_string("foo qux", 3);

    let got = sorted_completions(&trie, "foo ba");
    assert_eq!(
        got,
        vec![("bar".to_string(), Some(1)), ("baz".to_string(), Some(2))]
    );
}

#[test]
fn get_completions_with_trailing_whitespace_returns_all_next_tokens() {
    let mut trie = Trie::new();
    trie.add_string("foo bar", 1);
    trie.add_string("foo baz", 2);
    trie.add_string("foo qux", 3);

    let got = sorted_completions(&trie, "foo ");
    assert_eq!(
        got,
        vec![
            ("bar".to_string(), Some(1)),
            ("baz".to_string(), Some(2)),
            ("qux".to_string(), Some(3))
        ]
    );
}

#[test]
fn get_completions_returns_empty_when_exact_prefix_path_missing() {
    let mut trie = Trie::new();
    trie.add_string("foo bar", 1);

    let got = sorted_completions(&trie, "unknown ba");
    assert!(got.is_empty());
}

#[test]
fn get_completions_from_root_for_single_partial_token() {
    let mut trie = Trie::new();
    trie.add_string("alpha one", 1);
    trie.add_string("beta two", 2);
    trie.add_string("alphabet three", 3);

    let got = sorted_completions(&trie, "alp");
    assert_eq!(
        got,
        vec![
            ("alpha".to_string(), None),
            ("alphabet".to_string(), None)
        ]
    );
}

#[test]
fn trie_get_splits_on_unicode_whitespace() {
    let mut trie = Trie::new();
    trie.add_string("foo\u{3000}bar", 5);
    assert_eq!(trie.get("  foo \t bar\n"), Some(5));
    assert_eq!(trie.get("foobar"), None);
}

#[test]
fn trie_completions_keep_insertion_order() {
    let mut trie = Trie::new();
    trie.add_string("zeta", 1);
    trie.add_string("alpha", 2);
    trie.add_string("zero", 3);
    let got = trie.get_completions("z");
    assert_eq!(got, vec![("zeta".to_string(), Some(1)), ("zero".to_string(), Some(3))]);
    let all = trie.get_completions("");
    assert_eq!(all.len(), 3);
}

#[test]
fn split_whitespace_drops_runs_of_space() {
    let toks = tally42::text::split_whitespace("  a\tbb \n ccc  ");
    assert_eq!(toks, vec!["a".to_string(), "bb".to_string(), "ccc".to_string()]);
    assert!(tally42::text::split_whitespace(" \u{a0} ").is_empty());
}

#[test]
fn prompt_echoes_trimmed_lines_until_exit() {
    let repl = Repl::new();
    assert_eq!(repl.respond("  hello world \n"), ReplReply::Echo("echo: hello world".to_string()));
    assert_eq!(repl.respond("\n"), ReplReply::Echo("echo: ".to_string()));
    assert_eq!(repl.respond("exit\n"), ReplReply::Exit);
    assert_eq!(repl.respond("  QuIt  "), ReplReply::Exit);
    assert_eq!(repl.respond("exits"), ReplReply::Echo("echo: exits".to_string()));
}
