//! Escaping of JSON Pointer reference tokens.
//!
//! A reference token is one segment of a JSON Pointer path. Inside a token
//! `~` is written `~0` and `/` is written `~1`, so that a `/` in the path
//! always separates two tokens.

use vstd::prelude::*;

verus! {

broadcast use vstd::string::group_string_axioms;

/// What one character of a key becomes inside a reference token.
pub open spec fn escape_char(c: char) -> Seq<char> {
    if c == '~' {
        seq!['~', '0']
    } else if c == '/' {
        seq!['~', '1']
    } else {
        seq![c]
    }
}

/// The reference token for `key`: every character escaped on its own, in
/// order, so no character that escaping introduces is escaped again.
pub open spec fn escape(key: Seq<char>) -> Seq<char>
    decreases key.len(),
{
    if key.len() == 0 {
        Seq::empty()
    } else {
        escape_char(key[0]) + escape(key.drop_first())
    }
}

/// A key of one character escapes to what that character becomes.
pub proof fn lemma_escape_one(c: char)
    ensures
        escape(seq![c]) == escape_char(c),
{
    let key = seq![c];
    assert(key.drop_first() =~= Seq::<char>::empty());
    assert(escape(key.drop_first()) =~= Seq::<char>::empty());
    assert(escape(key) =~= escape_char(c));
}

/// Escaping distributes over concatenation.
pub proof fn lemma_escape_concat(a: Seq<char>, b: Seq<char>)
    ensures
        escape(a + b) == escape(a) + escape(b),
    decreases a.len(),
{
    if a.len() == 0 {
        assert(a + b =~= b);
        assert(escape(a) + escape(b) =~= escape(b));
    } else {
        assert((a + b).drop_first() =~= a.drop_first() + b);
        lemma_escape_concat(a.drop_first(), b);
        assert(escape_char(a[0]) + (escape(a.drop_first()) + escape(b)) =~= (escape_char(a[0])
            + escape(a.drop_first())) + escape(b));
    }
}

/// `first` put before what was decoded of the rest, where the rest decodes.
pub open spec fn prepend(first: char, rest: Option<Seq<char>>) -> Option<Seq<char>> {
    match rest {
        Some(decoded) => Some(seq![first] + decoded),
        None => None,
    }
}

/// The key that a reference token stands for: `~0` reads as `~`, `~1` reads
/// as `/`, and any other character reads as itself. A token with a bare `/`,
/// or with a `~` that is followed by neither `0` nor `1`, stands for no key.
pub open spec fn unescape(token: Seq<char>) -> Option<Seq<char>>
    decreases token.len(),
{
    if token.len() == 0 {
        Some(Seq::empty())
    } else if token[0] == '/' {
        None
    } else if token[0] == '~' {
        if token.len() >= 2 && token[1] == '0' {
            prepend('~', unescape(token.skip(2)))
        } else if token.len() >= 2 && token[1] == '1' {
            prepend('/', unescape(token.skip(2)))
        } else {
            None
        }
    } else {
        prepend(token[0], unescape(token.drop_first()))
    }
}

/// `decoded` put before what was decoded of the rest, where the rest decodes.
pub open spec fn prepend_all(decoded: Seq<char>, rest: Option<Seq<char>>) -> Option<Seq<char>> {
    match rest {
        Some(more) => Some(decoded + more),
        None => None,
    }
}

/// Decoding an escaped key gives the key back.
pub proof fn lemma_escape_round_trip(key: Seq<char>)
    ensures
        unescape(escape(key)) == Some(key),
    decreases key.len(),
{
    if key.len() > 0 {
        let rest = key.drop_first();
        let token = escape(key);
        lemma_escape_round_trip(rest);
        if key[0] == '~' || key[0] == '/' {
            assert(token.skip(2) =~= escape(rest));
        } else {
            assert(token.drop_first() =~= escape(rest));
        }
        assert(seq![key[0]] + rest =~= key);
    }
}

/// An escaped key holds no `/`.
pub proof fn lemma_escape_has_no_slash(key: Seq<char>)
    ensures
        forall|i: int| 0 <= i < escape(key).len() ==> escape(key)[i] != '/',
    decreases key.len(),
{
    if key.len() > 0 {
        let head = escape_char(key[0]);
        let tail = escape(key.drop_first());
        lemma_escape_has_no_slash(key.drop_first());
        assert forall|i: int| 0 <= i < escape(key).len() implies escape(key)[i] != '/' by {
            if i >= head.len() {
                assert(escape(key)[i] == tail[i - head.len()]);
            }
        }
    }
}

/// A key with neither `~` nor `/` in it is its own reference token.
pub proof fn lemma_escape_plain(key: Seq<char>)
    requires
        forall|i: int| 0 <= i < key.len() ==> key[i] != '~' && key[i] != '/',
    ensures
        escape(key) == key,
    decreases key.len(),
{
    if key.len() > 0 {
        lemma_escape_plain(key.drop_first());
        assert(seq![key[0]] + key.drop_first() =~= key);
    }
}

/// Reads a reference token back into the key it stands for.
pub fn rfc6901_decode(token: &str) -> (key: Option<String>)
    ensures
        match key {
            Some(text) => unescape(token@) == Some(text@),
            None => unescape(token@) is None,
        },
{
    let mut key = String::new();
    let mut escaping = false;
    let chars = token.chars();
    proof {
        assert(token@.skip(0) =~= token@);
        assert(forall|more: Seq<char>| Seq::<char>::empty() + more =~= more);
    }
    for c in it: chars
        invariant
            it.seq() == token@,
            escaping ==> it.index() >= 1 && token@[it.index() - 1] == '~',
            unescape(token@) == prepend_all(
                key@,
                unescape(token@.skip(if escaping { it.index() - 1 } else { it.index() })),
            ),
    {
        let ghost at = it.index();
        let ghost decoded = key@;
        if escaping {
            let ghost pair = token@.skip(at - 1);
            assert(pair[0] == '~' && pair[1] == c);
            assert(pair.skip(2) =~= token@.skip(at + 1));
            if c == '0' {
                key.push('~');
            } else if c == '1' {
                key.push('/');
            } else {
                return None;
            }
            escaping = false;
            assert(forall|more: Seq<char>| decoded + (seq![key@.last()] + more) =~= key@ + more);
        } else {
            let ghost rest = token@.skip(at);
            assert(rest[0] == c);
            if c == '~' {
                escaping = true;
            } else if c == '/' {
                return None;
            } else {
                key.push(c);
                assert(rest.drop_first() =~= token@.skip(at + 1));
                assert(forall|more: Seq<char>| decoded + (seq![c] + more) =~= key@ + more);
            }
        }
    }
    if escaping {
        assert(token@.skip(token@.len() - 1).len() == 1);
        None
    } else {
        assert(token@.skip(token@.len() as int) =~= Seq::<char>::empty());
        assert(key@ + Seq::<char>::empty() =~= key@);
        Some(key)
    }
}

/// A key to be written as one JSON Pointer reference token.
pub struct Rfc6901Encode<'a>(pub &'a str);

impl<'a> Rfc6901Encode<'a> {
    /// The escaped form of the key.
    pub fn to_string(&self) -> (token: String)
        ensures
            token@ == escape(self.0@),
    {
        let mut token = String::new();
        let chars = self.0.chars();
        for c in it: chars
            invariant
                it.seq() == self.0@,
                token@ == escape(self.0@.take(it.index())),
        {
            let ghost done = self.0@.take(it.index());
            proof {
                assert(self.0@.take(it.index() + 1) =~= done + seq![c]);
                lemma_escape_concat(done, seq![c]);
                lemma_escape_one(c);
            }
            if c == '~' {
                token.push('~');
                token.push('0');
            } else if c == '/' {
                token.push('~');
                token.push('1');
            } else {
                token.push(c);
            }
            assert(token@ =~= escape(done) + escape_char(c));
        }
        assert(self.0@.take(self.0@.len() as int) =~= self.0@);
        token
    }
}

} // verus!
