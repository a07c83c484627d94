use html5lex::states::RawKind;
use html5lex::Attribute;
use html5lex::Doctype;
use html5lex::State;
use html5lex::Tag;
use html5lex::TagKind;
use html5lex::Token;
use html5lex::TokenLogger;
use html5lex::Tokenizer;
use html5lex::TokenizerOpts;

fn opts() -> TokenizerOpts {
    TokenizerOpts {
        exact_errors: false,
        discard_bom: true,
        initial_state: None,
        last_start_tag_name: None,
        profile: false,
    }
}

fn tokenize_with(chunks: Vec<&str>, o: TokenizerOpts) -> Vec<Token> {
    let exact = o.exact_errors;
    let sink = TokenLogger::new(exact);
    let mut tok = Tokenizer::new(sink, o);
    for c in chunks {
        tok.feed(c.to_string());
    }
    tok.end();
    tok.into_sink().get_tokens()
}

fn tokenize(chunks: Vec<&str>) -> Vec<Token> {
    tokenize_with(chunks, opts())
}

fn chars(s: &str) -> Token {
    Token::CharacterTokens(s.to_string())
}

fn attr(name: &str, value: &str) -> Attribute {
    Attribute { name: name.to_string(), value: value.to_string() }
}

fn start_tag(name: &str, attrs: Vec<Attribute>, self_closing: bool) -> Token {
    Token::TagToken(Tag { kind: TagKind::StartTag, name: name.to_string(), self_closing, attrs })
}

fn end_tag(name: &str) -> Token {
    Token::TagToken(Tag {
        kind: TagKind::EndTag,
        name: name.to_string(),
        self_closing: false,
        attrs: Vec::new(),
    })
}

#[test]
fn plain_text() {
    assert_eq!(tokenize(vec!["hello"]), vec![chars("hello")]);
}

#[test]
fn simple_tags() {
    assert_eq!(
        tokenize(vec!["<p>x</p>"]),
        vec![start_tag("p", vec![], false), chars("x"), end_tag("p")]
    );
}

#[test]
fn tag_names_fold_to_lowercase() {
    assert_eq!(
        tokenize(vec!["<DiV></dIv>"]),
        vec![start_tag("div", vec![], false), end_tag("div")]
    );
}

#[test]
fn attributes_in_encounter_order() {
    assert_eq!(
        tokenize(vec!["<a b=\"1\" c='2' d=e f>x"]),
        vec![
            start_tag(
                "a",
                vec![attr("b", "1"), attr("c", "2"), attr("d", "e"), attr("f", "")],
                false
            ),
            chars("x"),
        ]
    );
}

#[test]
fn self_closing_tag() {
    assert_eq!(tokenize(vec!["<br/>"]), vec![start_tag("br", vec![], true)]);
}

#[test]
fn duplicate_attribute_is_dropped() {
    assert_eq!(
        tokenize(vec!["<a x=\"1\" x=\"2\">"]),
        vec![start_tag("a", vec![attr("x", "1")], false)]
    );
}

#[test]
fn comment() {
    assert_eq!(tokenize(vec!["<!--hi-->"]), vec![Token::CommentToken("hi".to_string())]);
}

#[test]
fn bogus_comment_from_bad_markup_declaration() {
    assert_eq!(tokenize(vec!["<!x y>"]), vec![Token::CommentToken("x y".to_string())]);
}

#[test]
fn doctype_html() {
    assert_eq!(
        tokenize(vec!["<!DOCTYPE html>"]),
        vec![Token::DoctypeToken(Doctype {
            name: Some("html".to_string()),
            public_id: None,
            system_id: None,
            force_quirks: false,
        })]
    );
}

#[test]
fn doctype_with_public_id() {
    assert_eq!(
        tokenize(vec!["<!DOCTYPE html PUBLIC \"pid\" 'sid'>"]),
        vec![Token::DoctypeToken(Doctype {
            name: Some("html".to_string()),
            public_id: Some("pid".to_string()),
            system_id: Some("sid".to_string()),
            force_quirks: false,
        })]
    );
}

#[test]
fn named_character_references() {
    assert_eq!(tokenize(vec!["a&amp;b"]), vec![chars("a&b")]);
    assert_eq!(tokenize(vec!["&lt;&GT;"]), vec![chars("<>")]);
    assert_eq!(tokenize(vec!["&notin;"]), vec![chars("\u{2209}")]);
    assert_eq!(tokenize(vec!["&not;x"]), vec![chars("\u{ac}x")]);
    // legacy form without a semicolon; longest match wins
    assert_eq!(tokenize(vec!["&notx"]), vec![chars("\u{ac}x")]);
    // unknown name passes through unchanged
    assert_eq!(tokenize(vec!["&zzz;"]), vec![chars("&zzz;")]);
    // a bare ampersand is character data
    assert_eq!(tokenize(vec!["a & b"]), vec![chars("a & b")]);
}

#[test]
fn numeric_character_references() {
    assert_eq!(tokenize(vec!["&#65;&#x42;&#X43;"]), vec![chars("ABC")]);
    // zero maps to the replacement character, with a parse error
    assert_eq!(tokenize(vec!["&#0;"]), vec![chars("\u{fffd}")]);
    // out of range likewise
    assert_eq!(tokenize(vec!["&#x110000;"]), vec![chars("\u{fffd}")]);
    // C1 controls map through the Windows-1252 repertoire
    assert_eq!(tokenize(vec!["&#x80;"]), vec![chars("\u{20ac}")]);
    // missing digits: the text stands for itself
    assert_eq!(tokenize(vec!["&#x"]), vec![chars("&#x")]);
}

#[test]
fn character_reference_in_attribute_value() {
    assert_eq!(
        tokenize(vec!["<a href=\"?x=1&amp;y=2\">"]),
        vec![start_tag("a", vec![attr("href", "?x=1&y=2")], false)]
    );
    // a legacy reference followed by an equals sign is not a reference
    // inside an attribute value
    assert_eq!(
        tokenize(vec!["<a href=\"?&not=1\">"]),
        vec![start_tag("a", vec![attr("href", "?&not=1")], false)]
    );
}

#[test]
fn null_in_character_data() {
    // a bare NUL is reported, never silently dropped
    assert_eq!(tokenize(vec!["a\0b"]), vec![chars("a\0b")]);
    let mut o = opts();
    o.exact_errors = true;
    assert_eq!(
        tokenize_with(vec!["a\0b"], o),
        vec![chars("a"), Token::ParseError(String::new()), chars("\0b")]
    );
}

#[test]
fn end_with_nothing_pending_emits_only_the_end_token() {
    // the recording sink drops the end-of-file token, so nothing is left
    assert_eq!(tokenize(vec![]), vec![]);
    assert_eq!(tokenize(vec!["x"]), vec![chars("x")]);
}

#[test]
fn rawtext_exit_requires_matching_name() {
    let mut o = opts();
    o.initial_state = Some(State::RawData(RawKind::Rawtext));
    o.last_start_tag_name = Some("script".to_string());
    assert_eq!(
        tokenize_with(vec!["foo</scr></script>bar"], o),
        vec![chars("foo</scr>"), end_tag("script"), chars("bar")]
    );
}

#[test]
fn rcdata_decodes_references_but_not_tags() {
    let mut o = opts();
    o.initial_state = Some(State::RawData(RawKind::Rcdata));
    o.last_start_tag_name = Some("title".to_string());
    assert_eq!(
        tokenize_with(vec!["a&amp;<b></title>"], o),
        vec![chars("a&<b>"), end_tag("title")]
    );
}

#[test]
fn plaintext_never_ends() {
    let mut o = opts();
    o.initial_state = Some(State::Plaintext);
    assert_eq!(tokenize_with(vec!["a</plaintext>b"], o), vec![chars("a</plaintext>b")]);
}

#[test]
fn carriage_returns_normalize_to_line_feeds() {
    assert_eq!(tokenize(vec!["a\r\nb\rc"]), vec![chars("a\nb\nc")]);
    // across a chunk boundary too
    assert_eq!(tokenize(vec!["a\r", "\nb"]), vec![chars("a\nb")]);
}

#[test]
fn byte_order_mark_is_discarded_by_default() {
    assert_eq!(tokenize(vec!["\u{feff}hi"]), vec![chars("hi")]);
    let mut o = opts();
    o.discard_bom = false;
    assert_eq!(tokenize_with(vec!["\u{feff}hi"], o), vec![chars("\u{feff}hi")]);
}

#[test]
fn eof_inside_tag_yields_no_tag() {
    assert_eq!(tokenize(vec!["x<a y"]), vec![chars("x")]);
    assert_eq!(tokenize(vec!["x<"]), vec![chars("x<")]);
    assert_eq!(tokenize(vec!["x</"]), vec![chars("x</")]);
}

#[test]
fn eof_inside_comment_emits_partial_comment() {
    assert_eq!(tokenize(vec!["<!--ab"]), vec![Token::CommentToken("ab".to_string())]);
}

// Splitting the input differently never changes the tokens: try every
// split of each sample into two and three chunks.
#[test]
fn chunk_invariance() {
    let samples = [
        "<a b=\"c&amp;d\">x<!--co--><y z>&lt;&#65;",
        "pre<script>s</script>post",
        "a\r\nb<br/>&notin;&notx",
        "<!DOCTYPE html PUBLIC \"p\" \"s\">text",
    ];
    for s in samples.iter() {
        let whole = tokenize(vec![s]);
        let idx: Vec<usize> = s
            .char_indices()
            .map(|(i, _)| i)
            .chain(std::iter::once(s.len()))
            .collect();
        for &i in idx.iter() {
            let split2 = tokenize(vec![&s[..i], &s[i..]]);
            assert_eq!(split2, whole, "two-way split at {} of {:?}", i, s);
            for &j in idx.iter() {
                if j >= i {
                    let split3 = tokenize(vec![&s[..i], &s[i..j], &s[j..]]);
                    assert_eq!(split3, whole, "three-way split at {},{} of {:?}", i, j, s);
                }
            }
        }
    }
}

#[test]
fn script_data_end_tag() {
    let mut o = opts();
    o.initial_state = Some(State::RawData(RawKind::ScriptData));
    o.last_start_tag_name = Some("script".to_string());
    assert_eq!(
        tokenize_with(vec!["if (a<b) { }</script>x"], o),
        vec![chars("if (a<b) { }"), end_tag("script"), chars("x")]
    );
}

#[test]
fn tag_equivalence_ignores_attribute_order_but_lists_keep_it() {
    let t1 = Tag {
        kind: TagKind::StartTag,
        name: "a".to_string(),
        self_closing: false,
        attrs: vec![attr("b", "1"), attr("c", "2")],
    };
    let t2 = Tag {
        kind: TagKind::StartTag,
        name: "a".to_string(),
        self_closing: true,
        attrs: vec![attr("c", "2"), attr("b", "1")],
    };
    assert!(t1.equiv_modulo_attr_order(&t2));
    assert!(t2.equiv_modulo_attr_order(&t1));
    assert_ne!(t1.attrs[0], t2.attrs[0]);
    assert_eq!(t1.attrs[0].name, "b");
    assert_eq!(t2.attrs[0].name, "c");

    let t3 = Tag {
        kind: TagKind::StartTag,
        name: "a".to_string(),
        self_closing: false,
        attrs: vec![attr("b", "1"), attr("c", "3")],
    };
    assert!(!t1.equiv_modulo_attr_order(&t3));
}
