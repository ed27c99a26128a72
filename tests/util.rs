use rust_cc::context::Context;
use rust_cc::lexer::{lex, Token};
use rust_cc::util::StepbackIterator;

#[test]
fn next_and_step_back() {
    let mut i = StepbackIterator::new(vec![1, 2, 3]);
    assert_eq!(i.next(), Some(1));
    assert_eq!(i.next(), Some(2));
    assert!(!i.is_exhausted());
    assert_eq!(i.next(), Some(3));
    assert!(i.is_exhausted());
    assert_eq!(i.next(), None);
    assert!(i.is_exhausted());
    i.step_back();
    i.step_back();
    assert!(!i.is_exhausted());
    assert_eq!(i.next(), Some(3));
}

#[test]
fn stepback_iterator_peek_and_start() {
    let mut i = StepbackIterator::new(vec!['a', 'b']);
    i.step_back();
    assert_eq!(i.peek(), Some('a'));
    assert_eq!(i.next(), Some('a'));
    assert_eq!(i.peek(), Some('b'));
    assert_eq!(i.next(), Some('b'));
    assert_eq!(i.peek(), None);
}

#[test]
fn context_navigation() {
    let mut c = Context::new(lex("a , b").unwrap());
    assert_eq!(c.peek(), Some(Token::Identifier("a".to_string())));
    assert_eq!(c.next(), Some(Token::Identifier("a".to_string())));
    assert_eq!(c.next(), Some(Token::Comma));
    assert_eq!(c.next(), Some(Token::Identifier("b".to_string())));
    assert!(c.is_exhausted());
    assert_eq!(c.next(), None);
    assert_eq!(c.next(), None);
    c.step_back();
    c.step_back();
    assert_eq!(c.peek(), None);
    c.step_back();
    assert_eq!(c.peek(), Some(Token::Identifier("b".to_string())));
}

#[test]
fn checkpoint_restores_position() {
    let mut c = Context::new(lex("a , b ;").unwrap());
    c.next();
    let cp = c.make_checkpoint();
    c.next();
    c.next();
    c.step_back();
    c.next();
    c.next();
    c.next();
    c.next();
    cp.restore(&mut c);
    assert_eq!(c.next(), Some(Token::Comma));

    let mut c = Context::new(lex("x").unwrap());
    let cp = c.make_checkpoint();
    c.step_back();
    c.next();
    c.next();
    cp.restore(&mut c);
    assert_eq!(c.peek(), Some(Token::Identifier("x".to_string())));
}
