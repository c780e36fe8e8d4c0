use pretty_simple::{to_list, ContextFn, Doc, Plain, ToDoc};

fn x_line_y() -> Doc {
    Doc::text("x").concat(Doc::line().concat(Doc::text("y")))
}

fn abc_def() -> Doc {
    Doc::text("abc").concat(Doc::line().concat(Doc::text("def")))
}

#[test]
fn text_and_space() {
    let d = Doc::text("a").concat_space(Doc::text("b"));
    assert_eq!(d.render(80), "a b");
}

#[test]
fn forced_break() {
    assert_eq!(x_line_y().render(80), "x\ny");
}

#[test]
fn nesting_under_break() {
    assert_eq!(x_line_y().nest(2).render(80), "x\n  y");
}

#[test]
fn group_collapses_or_breaks() {
    assert_eq!(abc_def().group().render(80), "abc def");
    assert_eq!(abc_def().group().render(7), "abc def");
    assert_eq!(abc_def().group().render(6), "abc\ndef");
    assert_eq!(abc_def().group().render(0), "abc\ndef");
}

#[test]
fn group_keeps_an_existing_choice() {
    let choice = Doc::text("wide").alt(Doc::text("w"));
    assert_eq!(choice.clone().group().render(80), "wide");
    assert_eq!(choice.group().render(2), "w");
}

#[test]
fn empty_is_identity() {
    for w in [0_i16, 3, 6, 7, 80] {
        let d = abc_def().group();
        let expected = d.clone().render(w);
        assert_eq!(d.clone().concat(Doc::nil()).render(w), expected);
        assert_eq!(Doc::nil().concat(d).render(w), expected);
    }
}

#[test]
fn flatten_twice_is_flatten_once() {
    let d = Doc::vsep(vec![Doc::text("a"), abc_def().nest(3), Doc::softline()]).group();
    for w in [1_i16, 10, 80] {
        assert_eq!(d.flatten().flatten().render(w), d.flatten().render(w));
    }
    assert_eq!(d.flatten().render(1), "a abc def  ");
}

#[test]
fn group_renders_flat_when_flat_fits() {
    let d = Doc::vsep(vec![Doc::text("one"), Doc::text("two"), Doc::text("three")]);
    assert_eq!(d.flatten().render(13), "one two three");
    assert_eq!(d.clone().group().render(13), d.flatten().render(13));
    assert_eq!(d.group().render(12), "one\ntwo\nthree");
}

#[test]
fn folds_of_nothing_are_empty() {
    assert_eq!(Doc::hsep(vec![]).render(80), "");
    assert_eq!(Doc::vsep(vec![]).render(80), "");
    assert_eq!(Doc::hcat(vec![]).render(80), "");
    assert_eq!(Doc::intersperse(vec![], Doc::comma()).render(80), "");
    assert_eq!(Doc::sep(vec![]).render(80), "");
    assert_eq!(Doc::concat_with(vec![], |a: Doc, b: Doc| a.concat(b)).render(80), "");
    assert_eq!(Doc::fill(&[]).render(80), "");
}

#[test]
fn folds_join_their_items() {
    let items = || vec![Doc::text("a"), Doc::text("b"), Doc::text("c")];
    assert_eq!(Doc::hsep(items()).render(80), "a b c");
    assert_eq!(Doc::vsep(items()).render(80), "a\nb\nc");
    assert_eq!(Doc::hcat(items()).render(80), "abc");
    assert_eq!(Doc::intersperse(items(), Doc::text(", ")).render(80), "a, b, c");
    assert_eq!(Doc::sep(items()).render(80), "a b c");
    assert_eq!(Doc::sep(items()).render(4), "a\nb\nc");
    let joined = Doc::concat_with(items(), |a: Doc, b: Doc| a.concat(Doc::comma()).concat(b));
    assert_eq!(joined.render(80), "a,b,c");
}

#[test]
fn soft_lines() {
    let d = || Doc::text("a").concat(Doc::softline()).concat(Doc::text("b"));
    assert_eq!(d().render(80), "a b");
    assert_eq!(d().render(2), "a\nb");
    let e = || Doc::text("a").concat(Doc::softline_empty()).concat(Doc::text("b"));
    assert_eq!(e().render(80), "ab");
    assert_eq!(e().render(1), "a\nb");
}

#[test]
fn probe_looks_past_the_choice() {
    // The choice itself fits, but the text after it does not.
    let d = Doc::text("ab").concat(Doc::softline()).concat(Doc::text("cd")).concat(Doc::text("efgh"));
    assert_eq!(d.render(8), "ab\ncdefgh");
    let d = Doc::text("ab").concat(Doc::softline()).concat(Doc::text("cd")).concat(Doc::text("efgh"));
    assert_eq!(d.render(9), "ab cdefgh");
}

#[test]
fn probe_stops_at_the_next_break() {
    let d = Doc::text("ab")
        .concat(Doc::softline())
        .concat(Doc::text("cd"))
        .concat(Doc::line())
        .concat(Doc::text("a very long line that does not fit"));
    assert_eq!(d.render(5), "ab cd\na very long line that does not fit");
}

#[test]
fn negative_nesting() {
    let inner = Doc::line().concat(Doc::text("y")).nest(-2);
    let d = Doc::text("x").concat(Doc::line().concat(inner).nest(4));
    assert_eq!(d.render(80), "x\n    \n  y");
}

#[test]
fn widths_count_characters() {
    let d = Doc::text("h\u{e9}llo").concat(Doc::line()).concat(Doc::text("x")).group();
    assert_eq!(d.render(7), "h\u{e9}llo x");
    let d = Doc::text("h\u{e9}llo").concat(Doc::line()).concat(Doc::text("x")).group();
    assert_eq!(d.render(6), "h\u{e9}llo\nx");
}

#[test]
fn spaces_and_constants() {
    assert_eq!(Doc::spaces(0).render(80), "");
    assert_eq!(Doc::spaces(1).render(80), " ");
    assert_eq!(Doc::spaces(3).render(80), "   ");
    assert_eq!(Doc::space().render(80), " ");
    assert_eq!(Doc::comma().render(80), ",");
    assert_eq!(Doc::nil().render(80), "");
    assert_eq!(Doc::line().render(80), "\n");
    assert_eq!(Doc::text("x").parens().render(80), "(x)");
    assert_eq!(Doc::text("x").angles().render(80), "<x>");
    assert_eq!(Doc::text("x").brackets().render(80), "[x]");
    assert_eq!(Doc::text("x").braces().render(80), "{x}");
    let all = Doc::hcat(vec![
        Doc::lparen(),
        Doc::rparen(),
        Doc::langle(),
        Doc::rangle(),
        Doc::lbracket(),
        Doc::rbracket(),
        Doc::lbrace(),
        Doc::rbrace(),
    ]);
    assert_eq!(all.render(80), "()<>[]{}");
}

#[test]
fn align_returns_to_the_start_column() {
    let d = Doc::text("ab").concat(Doc::vsep(vec![Doc::text("c"), Doc::text("d")]).align());
    assert_eq!(d.render(80), "abc\n  d");
}

#[test]
fn hang_and_indent() {
    let d = Doc::text("x").concat(Doc::vsep(vec![Doc::text("a"), Doc::text("b")]).hang(2));
    assert_eq!(d.render(80), "xa\n   b");
    let d = Doc::text("x").concat(Doc::vsep(vec![Doc::text("a"), Doc::text("b")]).indent(2));
    assert_eq!(d.render(80), "x  a\n   b");
}

struct ShowColumn;

impl ContextFn for ShowColumn {
    fn at(&self, l: i64) -> Plain {
        Plain::text("| <- column").concat_space(Plain::text(&format!("{l}")))
    }
}

struct ShowNesting;

impl ContextFn for ShowNesting {
    fn at(&self, l: i64) -> Plain {
        Plain::text("[")
            .concat(Plain::text("Nested:").concat_space(Plain::text(&format!("{l}"))))
            .concat(Plain::text("]"))
    }
}

#[test]
fn column() {
    let doc = Doc::text("prefix").concat_space(Doc::column(Box::new(ShowColumn)));
    let doc = Doc::vsep(
        vec![0, 4, 8]
            .into_iter()
            .map(|n| Doc::indent(doc.clone(), n))
            .collect(),
    );
    assert_eq!(
        doc.render(20),
        "prefix | <- column 7\n    prefix | <- column 11\n        prefix | <- column 15"
    );
}

#[test]
fn nesting() {
    let doc = Doc::text("prefix").concat_space(Doc::nesting(Box::new(ShowNesting)));
    let doc = Doc::vsep(
        vec![0, 4, 8]
            .into_iter()
            .map(|n| Doc::indent(doc.clone(), n))
            .collect(),
    );
    assert_eq!(
        doc.render(20),
        "prefix [Nested: 0]\n    prefix [Nested: 4]\n        prefix [Nested: 8]"
    );
}

/// Pads to the next multiple of eight columns.
struct TabStop;

impl ContextFn for TabStop {
    fn at(&self, k: i64) -> Plain {
        Plain::text(&" ".repeat((8 - k.rem_euclid(8)) as usize))
    }
}

#[test]
fn column_function_makes_tab_stops() {
    let row = |a: &str, b: &str| {
        Doc::text(a).concat(Doc::column(Box::new(TabStop))).concat(Doc::text(b))
    };
    let d = Doc::vsep(vec![row("ab", "x"), row("abcdefghij", "y")]);
    assert_eq!(d.render(80), "ab      x\nabcdefghij      y");
}

#[test]
fn context_functions_may_choose_and_break() {
    struct Breaks;
    impl ContextFn for Breaks {
        fn at(&self, _k: i64) -> Plain {
            Plain::text("long-word").alt(Plain::line().concat(Plain::text("w")).nest(2))
        }
    }
    let d = || Doc::text("abc").concat(Doc::column(Box::new(Breaks)));
    assert_eq!(d().render(80), "abclong-word");
    assert_eq!(d().render(5), "abc\n  w");
    assert_eq!(Plain::text("p").concat(Plain::nil()).to_doc().render(80), "p");
}

#[test]
fn flattened_hooks_stay_flat() {
    let d = Doc::text("k: ").concat(Doc::vsep(vec![Doc::text("a"), Doc::text("b")]).align());
    assert_eq!(d.clone().render(80), "k: a\n   b");
    assert_eq!(d.flatten().render(80), "k: a b");
    assert_eq!(d.group().render(80), "k: a b");
}

#[test]
fn block_layout() {
    let d = Doc::text("body").block(Doc::text("{"), Doc::text("}"));
    assert_eq!(d.render(80), "{\n    body\n}");
    let body = Doc::vsep(vec![Doc::text("one"), Doc::text("two")]);
    let d = body.block(Doc::text("{"), Doc::text("}"));
    assert_eq!(d.render(80), "{\n    one two\n}");
    let body = Doc::vsep(vec![Doc::text("one"), Doc::text("two")]);
    let d = body.block(Doc::text("{"), Doc::text("}"));
    assert_eq!(d.render(8), "{\n    one\n    two\n}");
}

#[test]
fn fill_packs_lines() {
    let xs = [Doc::text("aa"), Doc::text("bb"), Doc::text("cc")];
    assert_eq!(Doc::fill(&xs).render(80), "aa bb cc");
    assert_eq!(Doc::fill(&xs).render(5), "aa\nbb cc");
    assert_eq!(Doc::fill(&xs).render(4), "aa\nbb\ncc");
    assert_eq!(Doc::fill(&xs[..1]).render(0), "aa");
}

#[test]
fn fill_flattens_items_on_a_shared_line() {
    let xs = [Doc::text("a"), Doc::vsep(vec![Doc::text("b"), Doc::text("c")]), Doc::text("d")];
    assert_eq!(Doc::fill(&xs).render(80), "a b c d");
    assert_eq!(Doc::fill(&xs).render(5), "a\nb c d");
    assert_eq!(Doc::fill(&xs).render(3), "a\nb\nc\nd");
}

struct Item(&'static str);

impl ToDoc for Item {
    fn to_doc(&self) -> Doc {
        Doc::text(self.0)
    }
}

#[test]
fn list_of_items() {
    let xs = [Item("a"), Item("b"), Item("c")];
    assert_eq!(to_list(&xs, Doc::text(",")).render(80), "a,b,c");
    assert_eq!(to_list::<Item>(&[], Doc::text(",")).render(80), "");
    assert_eq!(Item("q").render(80), "q");
}

#[test]
fn concat_is_associative() {
    let a = || Doc::text("ab").concat(Doc::softline());
    let b = || Doc::text("cd").concat(Doc::line()).nest(2);
    let c = || Doc::text("ef").concat(Doc::softline()).concat(Doc::text("gh"));
    for w in [0_i16, 3, 5, 80] {
        let left = a().concat(b()).concat(c()).render(w);
        let right = a().concat(b().concat(c())).render(w);
        assert_eq!(left, right);
    }
    assert_eq!(a().concat(b()).concat(c()).render(80), "ab cd\n  ef gh");
    assert_eq!(a().concat(b().concat(c())).render(3), "ab\ncd\n  ef\ngh");
}

#[test]
fn nesting_adds_up() {
    let d = || Doc::text("x").concat(Doc::line()).concat(Doc::text("y"));
    assert_eq!(d().nest(3).nest(2).render(80), d().nest(5).render(80));
    assert_eq!(d().nest(3).nest(2).render(80), "x\n     y");
    assert_eq!(d().nest(-1).nest(3).render(80), "x\n  y");
}
