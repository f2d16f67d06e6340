use lite::{
    and_then, map_err, Again, Expecting,
    any_char, either, identifier, number, one_or_more, pair, pred, quoted_string, right, space0,
    space1, tag, trim, zero_or_more, AnyChar, CharIs, Collect, Error, ErrorKind, Ident, Number,
    Parser,
};

#[test]
fn tag_parser() {
    let parse_joe = tag("Hello Joe!");
    assert_eq!(
        Ok((("".into(), None), ())),
        parse_joe.parse(("Hello Joe!".into(), None))
    );
    assert_eq!(
        Err((
            "Hello!".into(),
            Some(Error::new(
                "Hello!".into(),
                ErrorKind::Tag("Hello Joe!".into())
            ))
        )),
        parse_joe.parse(("Hello!".into(), None))
    );
    assert_eq!(
        Ok((("".into(), None), ())),
        tag("\n").parse(("\n".into(), None))
    );
    assert_eq!(
        Ok((("=".into(), None), ())),
        tag(">").parse((">=".into(), None))
    );
}

#[test]
fn identifier_parser() {
    assert_eq!(
        Ok((("".into(), None), "i_am_an_identifier".into())),
        identifier(("i_am_an_identifier".into(), None))
    );
    assert_eq!(
        Ok(((" entirely an identifier".into(), None), "not".into())),
        identifier(("not entirely an identifier".into(), None))
    );
    assert_eq!(
        Ok((("two".into(), None), "one".into())),
        trim(Ident).parse(("one two".into(), None))
    );
    let input: String = "!not at all an identifier".into();
    assert_eq!(
        Err((
            input.clone(),
            Some(Error::new(input.clone(), ErrorKind::Ident))
        )),
        identifier((input, None))
    );
}

#[test]
fn number_parser() {
    assert_eq!(
        Ok((("".into(), None), "123.321".into())),
        number(("123.321".into(), None))
    );
}

#[test]
fn pair_combinator() {
    let tag_opener = pair(tag("<"), Ident);
    assert_eq!(
        Ok((("/>".into(), None), ((), "my_first_element".to_string()))),
        tag_opener.parse(("<my_first_element/>".into(), None))
    );
    assert_eq!(
        Err((
            "oops".into(),
            Some(Error::new("oops".into(), ErrorKind::Tag("<".into())))
        )),
        tag_opener.parse(("oops".into(), None))
    );
    assert_eq!(
        Err((
            "<!oops".into(),
            Some(Error::new("!oops".into(), ErrorKind::Ident))
        )),
        tag_opener.parse(("<!oops".into(), None))
    );
}

#[test]
fn right_combinator() {
    let tag_opener = right(tag("<"), Ident);
    assert_eq!(
        Ok((("/>".into(), None), "my_first_element".to_string())),
        tag_opener.parse(("<my_first_element/>".into(), None))
    );
    assert_eq!(
        Err((
            "oops".into(),
            Some(Error::new("oops".into(), ErrorKind::Tag("<".into())))
        )),
        tag_opener.parse(("oops".into(), None))
    );
    assert_eq!(
        Err((
            "<!oops".into(),
            Some(Error::new("!oops".into(), ErrorKind::Ident))
        )),
        tag_opener.parse(("<!oops".into(), None))
    );
}

#[test]
fn one_or_more_combinator() {
    let parser = one_or_more(tag("ha"));
    assert_eq!(
        Ok((("".into(), None), vec![(), (), ()])),
        parser.parse(("hahaha".into(), None))
    );
    assert_eq!(Err(("ahah".into(), None)), parser.parse(("ahah".into(), None)));
    assert_eq!(Err(("".into(), None)), parser.parse(("".into(), None)));
}

#[test]
fn zero_or_more_combinator() {
    let parser = zero_or_more(tag("ha"));
    assert_eq!(
        Ok((("".into(), None), vec![(), (), ()])),
        parser.parse(("hahaha".into(), None))
    );
    assert_eq!(
        Ok((("ahah".into(), None), vec![])),
        parser.parse(("ahah".into(), None))
    );
    assert_eq!(Ok((("".into(), None), vec![])), parser.parse(("".into(), None)));
}

#[test]
fn predicate_combinator() {
    let parser = pred(AnyChar, CharIs('o'));
    assert_eq!(
        Ok((("mg".into(), None), 'o')),
        parser.parse(("omg".into(), None))
    );
}

#[test]
fn quoted_string_parser() {
    assert_eq!(
        Ok((("".into(), None), "Hello Joe!".to_string())),
        quoted_string().parse(("\"Hello Joe!\"".into(), None))
    );
}

#[test]
fn either_combiantor() {
    assert_eq!(
        Ok(((" \"two\"".into(), None), "2".into())),
        either(Number, quoted_string()).parse(("2 \"two\"".into(), None))
    );
    assert_eq!(
        Ok(((" 2".into(), None), "two".into())),
        either(Number, quoted_string()).parse(("\"two\" 2".into(), None))
    );
    assert_eq!(
        Ok((("".into(), None), ())),
        either(tag("hey"), either(tag("there"), tag("one"))).parse(("one".into(), None))
    );
}

#[test]
fn either_retries_the_same_input() {
    // the first alternative consumes "ab" before failing on "c"
    let first = pair(tag("ab"), tag("c"));
    let second = pair(tag("a"), tag("b"));
    assert_eq!(
        Ok((("d".into(), None), ((), ()))),
        either(first, second).parse(("abd".into(), None))
    );
}

#[test]
fn zero_or_more_never_fails() {
    assert_eq!(
        Ok((("xyz".into(), None), vec![])),
        zero_or_more(tag("a")).parse(("xyz".into(), None))
    );
}

#[test]
fn one_or_more_fails_only_on_first() {
    assert_eq!(
        Ok((("b".into(), None), vec![()])),
        one_or_more(tag("a")).parse(("ab".into(), None))
    );
    assert_eq!(
        Err(("ba".into(), None)),
        one_or_more(tag("a")).parse(("ba".into(), None))
    );
}

#[test]
fn any_char_takes_one_character() {
    assert_eq!(Ok((("bc".into(), None), 'é')), any_char(("ébc".into(), None)));
    assert_eq!(
        Err(("".into(), Some(Error::new("".into(), ErrorKind::AnyChar)))),
        any_char(("".into(), None))
    );
}

#[test]
fn number_rejects_a_letter() {
    assert_eq!(
        Err(("x1".into(), Some(Error::new("x1".into(), ErrorKind::Float)))),
        number(("x1".into(), None))
    );
    assert_eq!(
        Ok(((".3".into(), None), "1.2".into())),
        number(("1.2.3".into(), None))
    );
}

#[test]
fn identifier_uses_unicode_letters() {
    assert_eq!(
        Ok(((" x".into(), None), "größe_2".into())),
        identifier(("größe_2 x".into(), None))
    );
}

#[test]
fn whitespace_runs() {
    assert_eq!(
        Ok((("x".into(), None), vec![' ', '\t', '\n'])),
        space0().parse((" \t\nx".into(), None))
    );
    assert_eq!(Err(("x".into(), None)), space1().parse(("x".into(), None)));
    assert_eq!(
        Ok((("".into(), None), "7".to_string())),
        trim(Number).parse(("  7\n".into(), None))
    );
}

#[test]
fn quoted_string_needs_closing_quote() {
    assert_eq!(
        Err((
            "\"open".into(),
            Some(Error::new("".into(), ErrorKind::Tag("\"".into())))
        )),
        quoted_string().parse(("\"open".into(), None))
    );
    assert_eq!(
        Ok(((" rest".into(), None), "".to_string())),
        quoted_string().parse(("\"\" rest".into(), None))
    );
}

#[test]
fn map_collects_characters() {
    assert_eq!(
        Ok((("".into(), None), "abc".to_string())),
        lite::combinators::map(zero_or_more(AnyChar), Collect).parse(("abc".into(), None))
    );
}

#[test]
fn tag_records_its_failure() {
    let prior = Some(Error::new("earlier".into(), ErrorKind::Ident));
    assert_eq!(
        Err((
            "abc".into(),
            Some(Error::new("abc".into(), ErrorKind::Tag("x".into())))
        )),
        tag("x").parse(("abc".into(), prior))
    );
}

#[test]
fn either_records_the_second_failure() {
    assert_eq!(
        Err((
            "zz".into(),
            Some(Error::new("zz".into(), ErrorKind::Tag("b".into())))
        )),
        either(tag("a"), tag("b")).parse(("zz".into(), None))
    );
}

#[test]
fn and_then_chooses_the_next_parser() {
    let twice = and_then(trim(Ident), Again);
    assert_eq!(
        Ok((("!".into(), None), ())),
        twice.parse(("ab ab!".into(), None))
    );
    assert_eq!(
        Err((
            "ab ac".into(),
            Some(Error::new("ac".into(), ErrorKind::Tag("ab".into())))
        )),
        twice.parse(("ab ac".into(), None))
    );
}

#[test]
fn map_err_relabels_the_failure() {
    let p = map_err(tag("x"), Expecting(ErrorKind::Ident));
    assert_eq!(
        Err(("y".into(), Some(Error::new("y".into(), ErrorKind::Ident)))),
        p.parse(("y".into(), None))
    );
    assert_eq!(Ok((("".into(), None), ())), p.parse(("x".into(), None)));
}
