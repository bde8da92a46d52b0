//! Record identifiers and query literals of the document store.

use crate::text::{chars_of, push_char, string_of};
use vstd::prelude::*;

verus! {

/// `s` with every single quote doubled, as a quoted SQL literal needs.
pub open spec fn spec_escape_quotes(s: Seq<char>) -> Seq<char>
    decreases s.len(),
{
    if s.len() == 0 {
        s
    } else if s.last() == '\'' {
        spec_escape_quotes(s.drop_last()) + seq!['\'', '\'']
    } else {
        spec_escape_quotes(s.drop_last()).push(s.last())
    }
}

/// `s` with every doubled single quote read back as one.
pub open spec fn spec_unescape_quotes(s: Seq<char>) -> Seq<char>
    decreases s.len(),
{
    if s.len() == 0 {
        s
    } else if s.len() >= 2 && s[0] == '\'' && s[1] == '\'' {
        seq!['\''] + spec_unescape_quotes(s.skip(2))
    } else {
        seq![s[0]] + spec_unescape_quotes(s.drop_first())
    }
}

/// The record key of `id` in `table`: `id` without a leading `table:`.
pub open spec fn spec_record_key(table: Seq<char>, id: Seq<char>) -> Seq<char> {
    let prefix = table.push(':');
    if prefix.len() <= id.len() && id.take(prefix.len() as int) == prefix {
        id.skip(prefix.len() as int)
    } else {
        id
    }
}

/// The document store.
pub struct Database {}

impl Database {
    /// Doubles every single quote of `s` (`replace("'", "''")`).
    pub fn escape_quotes(s: &str) -> (r: String)
        ensures
            r@ == spec_escape_quotes(s@),
    {
        let cs = chars_of(s);
        let mut r = String::new();
        let mut i: usize = 0;
        assert(cs@.take(0) =~= Seq::<char>::empty());
        while i < cs.len()
            invariant
                i <= cs.len(),
                r@ == spec_escape_quotes(cs@.take(i as int)),
            decreases cs.len() - i,
        {
            assert(cs@.take(i + 1).drop_last() =~= cs@.take(i as int));
            if cs[i] == '\'' {
                push_char(&mut r, '\'');
                push_char(&mut r, '\'');
                assert(r@ =~= spec_escape_quotes(cs@.take(i + 1)));
            } else {
                push_char(&mut r, cs[i]);
            }
            i = i + 1;
        }
        assert(cs@.take(cs.len() as int) =~= cs@);
        r
    }

    /// The record key of an identifier in a table: the identifier without a leading
    /// `table:` (as a lookup by identifier strips it).
    #[verifier::loop_isolation(false)]
    pub fn record_key(table: &str, id: &str) -> (r: String)
        ensures
            r@ == spec_record_key(table@, id@),
    {
        let mut prefix = chars_of(table);
        prefix.push(':');
        let cs = chars_of(id);
        if prefix.len() <= cs.len() {
            let mut k: usize = 0;
            while k < prefix.len()
                invariant
                    prefix.len() <= cs.len(),
                    k <= prefix.len(),
                    forall|j: int| 0 <= j < k ==> prefix@[j] == cs@[j],
                decreases prefix.len() - k,
            {
                if prefix[k] != cs[k] {
                    assert(cs@.take(prefix.len() as int)[k as int] != prefix@[k as int]);
                    return string_of(&cs);
                }
                k = k + 1;
            }
            assert(cs@.take(prefix.len() as int) =~= prefix@);
            let mut rest: Vec<char> = Vec::new();
            let mut i: usize = prefix.len();
            while i < cs.len()
                invariant
                    prefix.len() <= i <= cs.len(),
                    rest@ == cs@.subrange(prefix.len() as int, i as int),
                decreases cs.len() - i,
            {
                rest.push(cs[i]);
                i = i + 1;
                assert(rest@ =~= cs@.subrange(prefix.len() as int, i as int));
            }
            assert(rest@ =~= cs@.skip(prefix.len() as int));
            return string_of(&rest);
        }
        string_of(&cs)
    }
}

/// Escaping single quotes can be undone: reading the doubled quotes back gives the
/// original text.
pub proof fn law_escape_roundtrip(s: Seq<char>)
    ensures
        spec_unescape_quotes(spec_escape_quotes(s)) == s,
    decreases s.len(),
{
    lemma_escape_prepend(s);
}

/// Escaping distributes over a split into the first character and the rest.
proof fn lemma_escape_first(s: Seq<char>)
    requires
        s.len() > 0,
    ensures
        spec_escape_quotes(s) == (if s[0] == '\'' {
            seq!['\'', '\'']
        } else {
            seq![s[0]]
        }) + spec_escape_quotes(s.drop_first()),
    decreases s.len(),
{
    if s.len() == 1 {
        assert(s.drop_last() =~= Seq::<char>::empty());
        assert(s.drop_first() =~= Seq::<char>::empty());
        assert(s.last() == s[0]);
    } else {
        lemma_escape_first(s.drop_last());
        assert(s.drop_last().drop_first() =~= s.drop_first().drop_last());
        assert(s.drop_first().last() == s.last());
        assert(s.drop_last()[0] == s[0]);
    }
}

/// Unescaping inverts escaping, by induction from the front.
proof fn lemma_escape_prepend(s: Seq<char>)
    ensures
        spec_unescape_quotes(spec_escape_quotes(s)) == s,
    decreases s.len(),
{
    if s.len() == 0 {
    } else {
        lemma_escape_first(s);
        lemma_escape_prepend(s.drop_first());
        let e = spec_escape_quotes(s.drop_first());
        if s[0] == '\'' {
            let t = seq!['\'', '\''] + e;
            assert(t[0] == '\'' && t[1] == '\'');
            assert(t.skip(2) =~= e);
            assert(seq!['\''] + s.drop_first() =~= s);
        } else {
            let t = seq![s[0]] + e;
            assert(t[0] == s[0]);
            assert(t.drop_first() =~= e);
            assert(seq![s[0]] + s.drop_first() =~= s);
        }
    }
}

} // verus!
