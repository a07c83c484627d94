use html5lex::states::RawKind;
use html5lex::Attribute;
use html5lex::Doctype;
use html5lex::State;
use html5lex::Tag;
use html5lex::TagKind;
use html5lex::TextModeSink;
use html5lex::Token;
use html5lex::Tokenizer;
use html5lex::TokenizerOpts;
use html5lex::XPi;
use html5lex::XTag;
use html5lex::XTagKind;
use html5lex::xtokens::XTokenSink;
use html5lex::XToken;
use html5lex::XTokenLog;

#[test]
fn constructors_start_empty() {
    let d = Doctype::new();
    assert_eq!(d.name, None);
    assert_eq!(d.public_id, None);
    assert_eq!(d.system_id, None);
    assert!(!d.force_quirks);

    let mut a = Attribute::new();
    assert_eq!(a.name, "");
    assert_eq!(a.value, "");
    a.name.push('x');
    a.value.push('y');
    a.clear();
    assert_eq!(a.name, "");
    assert_eq!(a.value, "");

    let t = Tag::new(TagKind::EndTag);
    assert_eq!(t.kind, TagKind::EndTag);
    assert_eq!(t.name, "");
    assert!(!t.self_closing);
    assert!(t.attrs.is_empty());
}

#[test]
fn xtag_equiv_modulo_attr_order() {
    let a = |n: &str, v: &str| Attribute { name: n.to_string(), value: v.to_string() };
    let t1 = XTag {
        kind: XTagKind::StartXTag,
        name: "a".to_string(),
        attrs: vec![a("b", "1"), a("c", "2")],
    };
    let t2 = XTag {
        kind: XTagKind::StartXTag,
        name: "a".to_string(),
        attrs: vec![a("c", "2"), a("b", "1")],
    };
    assert!(t1.equiv_modulo_attr_order(&t2));
    assert!(!t1.equiv_modulo_attr_order(&XTag {
        kind: XTagKind::EndXTag,
        name: "a".to_string(),
        attrs: vec![a("b", "1"), a("c", "2")],
    }));

    let pi = XPi { target: "t".to_string(), data: "d".to_string() };
    let tok = XToken::PIToken(pi);
    assert_eq!(tok, XToken::PIToken(XPi { target: "t".to_string(), data: "d".to_string() }));
}

#[test]
fn xtoken_log_records_in_order() {
    let mut log = XTokenLog::new();
    log.process_token(XToken::CharacterXTokens("a".to_string()));
    log.process_token(XToken::EOFXToken);
    assert_eq!(
        log.into_tokens(),
        vec![XToken::CharacterXTokens("a".to_string()), XToken::EOFXToken]
    );
}

// Entering a raw-text mode is sink-driven: the sink redirects the
// tokenizer after the start tag, and only the matching end tag leaves
// the mode again.
#[test]
fn sink_driven_rawtext_entry() {
    let sink = TextModeSink::new(
        false,
        "script".to_string(),
        State::RawData(RawKind::Rawtext),
    );
    let mut tok = Tokenizer::new(
        sink,
        TokenizerOpts {
            exact_errors: false,
            discard_bom: true,
            initial_state: None,
            last_start_tag_name: None,
            profile: false,
        },
    );
    tok.feed("a<script>if (x<y) </x></script>b".to_string());
    tok.end();
    let tokens = tok.into_sink().into_logger().get_tokens();
    assert_eq!(
        tokens,
        vec![
            Token::CharacterTokens("a".to_string()),
            Token::TagToken(Tag {
                kind: TagKind::StartTag,
                name: "script".to_string(),
                self_closing: false,
                attrs: vec![],
            }),
            Token::CharacterTokens("if (x<y) </x>".to_string()),
            Token::TagToken(Tag {
                kind: TagKind::EndTag,
                name: "script".to_string(),
                self_closing: false,
                attrs: vec![],
            }),
            Token::CharacterTokens("b".to_string()),
        ]
    );
}
