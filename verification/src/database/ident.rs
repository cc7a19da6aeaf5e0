use vstd::prelude::*;

use crate::database::error::DbError;
use crate::text::{push_char, to_owned_string};

verus! {

pub open spec fn is_ascii_letter(c: char) -> bool {
    ('a' <= c && c <= 'z') || ('A' <= c && c <= 'Z')
}

pub open spec fn is_ascii_digit(c: char) -> bool {
    '0' <= c && c <= '9'
}

/// A character allowed in an identifier: an ASCII letter or digit, or `_`.
pub open spec fn is_ident_char(c: char) -> bool {
    is_ascii_letter(c) || is_ascii_digit(c) || c == '_'
}

/// A safe SQL identifier: not empty, starts with an ASCII letter or `_`, and holds only ASCII
/// letters, digits and `_`.
pub open spec fn valid_identifier(s: Seq<char>) -> bool {
    &&& s.len() > 0
    &&& (is_ascii_letter(s[0]) || s[0] == '_')
    &&& forall|i: int| 0 <= i < s.len() ==> #[trigger] is_ident_char(s[i])
}

/// A name is a valid identifier exactly when it is not empty, its first character is an
/// ASCII letter (`a`-`z` or `A`-`Z`) or `_`, and every character is an ASCII letter, an ASCII
/// digit (`0`-`9`) or `_`.
pub proof fn lemma_valid_identifier_chars(s: Seq<char>)
    ensures
        valid_identifier(s) <==> {
            &&& s.len() > 0
            &&& ('a' <= s[0] <= 'z' || 'A' <= s[0] <= 'Z' || s[0] == '_')
            &&& forall|i: int|
                0 <= i < s.len() ==> ('a' <= #[trigger] s[i] <= 'z' || 'A' <= s[i] <= 'Z' || '0'
                    <= s[i] <= '9' || s[i] == '_')
        },
{
    if valid_identifier(s) {
        assert forall|i: int| 0 <= i < s.len() implies ('a' <= #[trigger] s[i] <= 'z' || 'A'
            <= s[i] <= 'Z' || '0' <= s[i] <= '9' || s[i] == '_') by {
            assert(is_ident_char(s[i]));
        }
    }
    if s.len() > 0 && ('a' <= s[0] <= 'z' || 'A' <= s[0] <= 'Z' || s[0] == '_') && forall|i: int|
        0 <= i < s.len() ==> ('a' <= #[trigger] s[i] <= 'z' || 'A' <= s[i] <= 'Z' || '0' <= s[i]
            <= '9' || s[i] == '_') {
        assert forall|i: int| 0 <= i < s.len() implies #[trigger] is_ident_char(s[i]) by {
            assert('a' <= s[i] <= 'z' || 'A' <= s[i] <= 'Z' || '0' <= s[i] <= '9' || s[i] == '_');
        }
    }
}

/// `s` with every `"` doubled.
pub open spec fn escape_quotes(s: Seq<char>) -> Seq<char>
    decreases s.len(),
{
    if s.len() == 0 {
        Seq::<char>::empty()
    } else if s.last() == '"' {
        escape_quotes(s.drop_last()) + seq!['"', '"']
    } else {
        escape_quotes(s.drop_last()).push(s.last())
    }
}

/// The SQL quoted form of an identifier: `"`, the name with each `"` doubled, `"`.
pub open spec fn quoted(s: Seq<char>) -> Seq<char> {
    seq!['"'] + escape_quotes(s) + seq!['"']
}

/// A text without `"` needs no escaping.
pub proof fn lemma_escape_plain(s: Seq<char>)
    requires
        forall|i: int| 0 <= i < s.len() ==> s[i] != '"',
    ensures
        escape_quotes(s) == s,
    decreases s.len(),
{
    if s.len() > 0 {
        lemma_escape_plain(s.drop_last());
        assert(s =~= s.drop_last().push(s.last()));
    }
}

/// A valid identifier is quoted by surrounding it with `"`, unchanged.
pub proof fn lemma_quoted_valid_identifier(s: Seq<char>)
    requires
        valid_identifier(s),
    ensures
        quoted(s) == seq!['"'] + s + seq!['"'],
{
    assert forall|i: int| 0 <= i < s.len() implies s[i] != '"' by {
        assert(is_ident_char(s[i]));
    }
    lemma_escape_plain(s);
}

/// Reads back an escaped text: each `""` gives one `"`.
pub open spec fn unescape_quotes(t: Seq<char>) -> Seq<char>
    decreases t.len(),
{
    if t.len() == 0 {
        Seq::<char>::empty()
    } else if t.len() >= 2 && t.last() == '"' && t[t.len() - 2] == '"' {
        unescape_quotes(t.subrange(0, t.len() - 2)).push('"')
    } else {
        unescape_quotes(t.drop_last()).push(t.last())
    }
}

/// Escaping loses nothing: reading the escaped text back gives the name.
pub proof fn lemma_unescape_escape(s: Seq<char>)
    ensures
        unescape_quotes(escape_quotes(s)) == s,
    decreases s.len(),
{
    if s.len() > 0 {
        lemma_unescape_escape(s.drop_last());
        let e = escape_quotes(s.drop_last());
        if s.last() == '"' {
            let t = e + seq!['"', '"'];
            assert(t.subrange(0, t.len() - 2) =~= e);
        } else {
            let t = e.push(s.last());
            assert(t.drop_last() =~= e);
        }
        assert(s.drop_last().push(s.last()) =~= s);
    }
}

/// Quoting is one-to-one: two names with the same quoted form are the same name, so quoted
/// names never collide and the name can be read back from its quoted form.
pub proof fn lemma_quoted_injective(a: Seq<char>, b: Seq<char>)
    requires
        quoted(a) == quoted(b),
    ensures
        a == b,
{
    let qa = quoted(a);
    assert(escape_quotes(a) =~= qa.subrange(1, qa.len() - 1));
    assert(escape_quotes(b) =~= quoted(b).subrange(1, quoted(b).len() - 1));
    lemma_unescape_escape(a);
    lemma_unescape_escape(b);
}

/// Double-quotes a SQL identifier, doubling each `"` inside it.
pub fn quote_ident(name: &str) -> (res: String)
    ensures
        res@ == quoted(name@),
{
    let n: usize = name.unicode_len();
    let mut res: String = String::new();
    push_char(&mut res, '"');
    let mut i: usize = 0;
    assert(name@.take(0) =~= Seq::<char>::empty());
    while i < n
        invariant
            n == name@.len(),
            i <= n,
            res@ == seq!['"'] + escape_quotes(name@.take(i as int)),
        decreases n - i,
    {
        let c: char = name.get_char(i);
        assert(name@.take(i + 1).drop_last() =~= name@.take(i as int));
        if c == '"' {
            push_char(&mut res, '"');
            push_char(&mut res, '"');
            assert(res@ =~= seq!['"'] + escape_quotes(name@.take(i as int)) + seq!['"', '"']);
        } else {
            push_char(&mut res, c);
            assert(res@ =~= seq!['"'] + escape_quotes(name@.take(i as int)).push(c));
        }
        i = i + 1;
    }
    assert(name@.take(n as int) =~= name@);
    push_char(&mut res, '"');
    res
}

fn is_ident_char_exec(c: char) -> (res: bool)
    ensures
        res == is_ident_char(c),
{
    ('a' <= c && c <= 'z') || ('A' <= c && c <= 'Z') || ('0' <= c && c <= '9') || c == '_'
}

/// Checks that `name` is a safe SQL identifier.
pub fn validate_identifier(name: &str) -> (res: Result<(), DbError>)
    ensures
        res is Ok <==> valid_identifier(name@),
        res matches Err(e) ==> e matches DbError::InvalidIdentifier(n) && n@ == name@,
{
    let n: usize = name.unicode_len();
    let mut ok: bool = n > 0;
    if ok {
        let c: char = name.get_char(0);
        ok = ('a' <= c && c <= 'z') || ('A' <= c && c <= 'Z') || c == '_';
    }
    let mut i: usize = 0;
    while ok && i < n
        invariant
            n == name@.len(),
            i <= n,
            ok ==> n > 0 && (is_ascii_letter(name@[0]) || name@[0] == '_'),
            ok ==> forall|j: int| 0 <= j < i ==> #[trigger] is_ident_char(name@[j]),
            !ok ==> !valid_identifier(name@),
        decreases n - i,
    {
        if !is_ident_char_exec(name.get_char(i)) {
            ok = false;
        }
        i = i + 1;
    }
    if ok {
        Ok(())
    } else {
        Err(DbError::InvalidIdentifier(to_owned_string(name)))
    }
}

} // verus!
