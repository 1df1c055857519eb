//! The canonical texts read back one way: a JSON string, an array of strings or a number,
//! followed by whatever comes after it, determines both its value and the rest.
use vstd::prelude::*;
use crate::json::{escape, escape_char, join_commas, json_bool, json_string, json_string_array};
use crate::normalise::string_views;
use crate::text::{decimal, signed_decimal};

verus! {

/// Equal texts that start with the same prefix are equal after it.
pub proof fn lemma_prefix_cancel(k: Seq<char>, x: Seq<char>, y: Seq<char>)
    requires
        k + x == k + y,
    ensures
        x == y,
{
    assert(x =~= (k + x).skip(k.len() as int));
    assert(y =~= (k + y).skip(k.len() as int));
}

/// The escaped body of a string, read from the front.
proof fn lemma_escape_front(s: Seq<char>)
    requires
        s.len() > 0,
    ensures
        escape(s) == escape_char(s[0]) + escape(s.drop_first()),
    decreases s.len(),
{
    if s.len() == 1 {
        assert(s.drop_last() =~= Seq::<char>::empty());
        assert(s.drop_first() =~= Seq::<char>::empty());
        assert(escape(Seq::<char>::empty()) =~= Seq::<char>::empty());
        assert(escape(s) =~= escape_char(s[0]) + escape(s.drop_first()));
    } else {
        let d = s.drop_last();
        lemma_escape_front(d);
        assert(d.drop_first() =~= s.drop_first().drop_last());
        assert(d[0] == s[0]);
        assert(s.drop_first().last() == s.last());
        assert(escape(s) =~= escape_char(s[0]) + escape(s.drop_first()));
    }
}

/// An escaped character is never empty and never starts with a quote.
proof fn lemma_escape_char_shape(c: char)
    ensures
        escape_char(c).len() >= 1,
        escape_char(c)[0] != '"',
{
}

/// No escaped character is a proper prefix of another: the escapes read back one way.
proof fn lemma_escape_char_cut(c: char, d: char, x: Seq<char>, y: Seq<char>)
    requires
        escape_char(c) + x == escape_char(d) + y,
    ensures
        c == d,
{
    let a = escape_char(c);
    let b = escape_char(d);
    assert((a + x)[0] == (b + y)[0]);
    assert(a[0] == (a + x)[0]);
    assert(b[0] == (b + y)[0]);
    if a.len() >= 2 && b.len() >= 2 {
        assert((a + x)[1] == (b + y)[1]);
        assert(a[1] == (a + x)[1]);
        assert(b[1] == (b + y)[1]);
        if a.len() == 6 && b.len() == 6 {
            assert((a + x)[4] == (b + y)[4]);
            assert((a + x)[5] == (b + y)[5]);
            assert(a[4] == (a + x)[4] && a[5] == (a + x)[5]);
            assert(b[4] == (b + y)[4] && b[5] == (b + y)[5]);
            let cu = c as u32;
            let du = d as u32;
            let h1 = ((cu / 16) as int);
            let h2 = ((du / 16) as int);
            let l1 = ((cu % 16) as int);
            let l2 = ((du % 16) as int);
            assert(crate::text::hex_char(h1) as u32 == if h1 < 10 { 48 + h1 } else { 87 + h1 });
            assert(crate::text::hex_char(h2) as u32 == if h2 < 10 { 48 + h2 } else { 87 + h2 });
            assert(crate::text::hex_char(l1) as u32 == if l1 < 10 { 48 + l1 } else { 87 + l1 });
            assert(crate::text::hex_char(l2) as u32 == if l2 < 10 { 48 + l2 } else { 87 + l2 });
            assert(cu == 16 * (cu / 16) + cu % 16);
            assert(du == 16 * (du / 16) + du % 16);
        }
    }
}

/// An escaped body followed by a closing quote determines the string and what follows.
pub proof fn lemma_escape_cut(s: Seq<char>, t: Seq<char>, x: Seq<char>, y: Seq<char>)
    requires
        escape(s) + (seq!['"'] + x) == escape(t) + (seq!['"'] + y),
    ensures
        s == t,
        x == y,
    decreases s.len(),
{
    let q = seq!['"'];
    if s.len() == 0 && t.len() == 0 {
        assert(escape(s) =~= Seq::<char>::empty());
        assert(escape(t) =~= Seq::<char>::empty());
        assert(escape(s) + (q + x) =~= q + x);
        assert(escape(t) + (q + y) =~= q + y);
        lemma_prefix_cancel(q, x, y);
        assert(s =~= t);
    } else if s.len() == 0 {
        assert(escape(s) =~= Seq::<char>::empty());
        lemma_escape_front(t);
        lemma_escape_char_shape(t[0]);
        assert((escape(s) + (q + x))[0] == '"');
        assert((escape(t) + (q + y))[0] == escape_char(t[0])[0]);
    } else if t.len() == 0 {
        assert(escape(t) =~= Seq::<char>::empty());
        lemma_escape_front(s);
        lemma_escape_char_shape(s[0]);
        assert((escape(t) + (q + y))[0] == '"');
        assert((escape(s) + (q + x))[0] == escape_char(s[0])[0]);
    } else {
        lemma_escape_front(s);
        lemma_escape_front(t);
        let a = escape_char(s[0]);
        let b = escape_char(t[0]);
        let xs = escape(s.drop_first()) + (q + x);
        let yt = escape(t.drop_first()) + (q + y);
        assert(a + xs =~= escape(s) + (q + x));
        assert(b + yt =~= escape(t) + (q + y));
        lemma_escape_char_cut(s[0], t[0], xs, yt);
        lemma_prefix_cancel(a, xs, yt);
        lemma_escape_cut(s.drop_first(), t.drop_first(), x, y);
        assert(s =~= seq![s[0]] + s.drop_first());
        assert(t =~= seq![t[0]] + t.drop_first());
    }
}

/// A JSON string determines its value and what follows it.
pub proof fn lemma_string_cut(s: Seq<char>, t: Seq<char>, x: Seq<char>, y: Seq<char>)
    requires
        json_string(s) + x == json_string(t) + y,
    ensures
        s == t,
        x == y,
{
    let q = seq!['"'];
    assert(json_string(s) + x =~= q + (escape(s) + (q + x)));
    assert(json_string(t) + y =~= q + (escape(t) + (q + y)));
    lemma_prefix_cancel(q, escape(s) + (q + x), escape(t) + (q + y));
    lemma_escape_cut(s, t, x, y);
}

/// Items joined by commas, read from the front.
proof fn lemma_join_front(items: Seq<Seq<char>>)
    requires
        items.len() >= 2,
    ensures
        join_commas(items) == items[0] + (seq![','] + join_commas(items.drop_first())),
    decreases items.len(),
{
    let d = items.drop_last();
    if items.len() == 2 {
        assert(d.len() == 1);
        assert(items.drop_first().len() == 1);
        assert(join_commas(d) == d[0]);
        assert(join_commas(items.drop_first()) == items.drop_first()[0]);
        assert(d[0] == items[0]);
        assert(items.drop_first()[0] == items[1]);
        assert(join_commas(items) == join_commas(d) + seq![','] + items.last());
        assert(join_commas(items) =~= items[0] + (seq![','] + join_commas(items.drop_first())));
    } else {
        lemma_join_front(d);
        assert(d.drop_first() =~= items.drop_first().drop_last());
        assert(items.drop_first().last() == items.last());
        assert(join_commas(items) =~= items[0] + (seq![','] + join_commas(items.drop_first())));
    }
}

/// The JSON strings of some values.
pub open spec fn strings_of(v: Seq<Seq<char>>) -> Seq<Seq<char>> {
    Seq::new(v.len(), |i: int| json_string(v[i]))
}

/// The items of an array of strings, up to its closing bracket, determine the strings and what
/// follows.
proof fn lemma_items_cut(v: Seq<Seq<char>>, w: Seq<Seq<char>>, x: Seq<char>, y: Seq<char>)
    requires
        join_commas(strings_of(v)) + (seq![']'] + x) == join_commas(strings_of(w)) + (seq![']'] + y),
    ensures
        v == w,
        x == y,
    decreases v.len(),
{
    let close = seq![']'];
    let comma = seq![','];
    let sv = strings_of(v);
    let sw = strings_of(w);
    if v.len() == 0 && w.len() == 0 {
        assert(join_commas(sv) =~= Seq::<char>::empty());
        assert(join_commas(sw) =~= Seq::<char>::empty());
        assert(join_commas(sv) + (close + x) =~= close + x);
        assert(join_commas(sw) + (close + y) =~= close + y);
        lemma_prefix_cancel(close, x, y);
        assert(v =~= w);
    } else if v.len() == 0 || w.len() == 0 {
        let (e, n) = if v.len() == 0 {
            (w, sw)
        } else {
            (v, sv)
        };
        if e.len() == 1 {
            assert(join_commas(n) == n[0]);
        } else {
            lemma_join_front(n);
        }
        assert(join_commas(n)[0] == n[0][0]);
        assert(n[0][0] == '"');
        assert(join_commas(sv) =~= Seq::<char>::empty() || join_commas(sw) =~= Seq::<char>::empty());
        assert((join_commas(sv) + (close + x))[0] == (join_commas(sw) + (close + y))[0]);
    } else {
        let tv = if v.len() == 1 {
            close + x
        } else {
            comma + (join_commas(strings_of(v.drop_first())) + (close + x))
        };
        let tw = if w.len() == 1 {
            close + y
        } else {
            comma + (join_commas(strings_of(w.drop_first())) + (close + y))
        };
        assert(sv.drop_first() =~= strings_of(v.drop_first()));
        assert(sw.drop_first() =~= strings_of(w.drop_first()));
        if v.len() == 1 {
            assert(join_commas(sv) == sv[0]);
        } else {
            lemma_join_front(sv);
        }
        if w.len() == 1 {
            assert(join_commas(sw) == sw[0]);
        } else {
            lemma_join_front(sw);
        }
        assert(join_commas(sv) + (close + x) =~= json_string(v[0]) + tv);
        assert(join_commas(sw) + (close + y) =~= json_string(w[0]) + tw);
        lemma_string_cut(v[0], w[0], tv, tw);
        assert(tv[0] == tw[0]);
        if v.len() == 1 && w.len() == 1 {
            lemma_prefix_cancel(close, x, y);
            assert(v =~= w);
        } else if v.len() > 1 && w.len() > 1 {
            lemma_prefix_cancel(
                comma,
                join_commas(strings_of(v.drop_first())) + (close + x),
                join_commas(strings_of(w.drop_first())) + (close + y),
            );
            lemma_items_cut(v.drop_first(), w.drop_first(), x, y);
            assert(v =~= seq![v[0]] + v.drop_first());
            assert(w =~= seq![w[0]] + w.drop_first());
        }
    }
}

/// An array of strings determines the strings (by their views) and what follows it.
pub proof fn lemma_string_array_cut(a: Seq<String>, b: Seq<String>, x: Seq<char>, y: Seq<char>)
    requires
        json_string_array(a) + x == json_string_array(b) + y,
    ensures
        string_views(a) == string_views(b),
        x == y,
{
    let open = seq!['['];
    let close = seq![']'];
    let va = string_views(a);
    let vb = string_views(b);
    assert(Seq::new(a.len(), |i: int| json_string(a[i]@)) =~= strings_of(va));
    assert(Seq::new(b.len(), |i: int| json_string(b[i]@)) =~= strings_of(vb));
    assert(json_string_array(a) + x =~= open + (join_commas(strings_of(va)) + (close + x)));
    assert(json_string_array(b) + y =~= open + (join_commas(strings_of(vb)) + (close + y)));
    lemma_prefix_cancel(
        open,
        join_commas(strings_of(va)) + (close + x),
        join_commas(strings_of(vb)) + (close + y),
    );
    lemma_items_cut(va, vb, x, y);
}

/// Two texts free of `c`, each followed by something that starts with `c`, are equal exactly
/// when the whole texts are, and so are the parts that follow.
pub proof fn lemma_separator_cut(d1: Seq<char>, d2: Seq<char>, z1: Seq<char>, z2: Seq<char>, c: char)
    requires
        d1 + z1 == d2 + z2,
        !d1.contains(c),
        !d2.contains(c),
        z1.len() > 0 && z1[0] == c,
        z2.len() > 0 && z2[0] == c,
    ensures
        d1 == d2,
        z1 == z2,
{
    if d1.len() < d2.len() {
        assert((d1 + z1)[d1.len() as int] == c);
        assert((d2 + z2)[d1.len() as int] == d2[d1.len() as int]);
    } else if d2.len() < d1.len() {
        assert((d2 + z2)[d2.len() as int] == c);
        assert((d1 + z1)[d2.len() as int] == d1[d2.len() as int]);
    } else {
        assert(d1 =~= (d1 + z1).take(d1.len() as int));
        assert(d2 =~= (d2 + z2).take(d2.len() as int));
        lemma_prefix_cancel(d1, z1, z2);
    }
}

/// Decimal notation is made of the digits `0` to `9`.
pub proof fn lemma_decimal_digits(n: nat)
    ensures
        forall|i: int| 0 <= i < decimal(n).len() ==> 48 <= #[trigger] decimal(n)[i] as u32 <= 57,
    decreases n,
{
    if n < 10 {
        assert(crate::text::digit_char(n as int) as u32 == 48 + n);
    } else {
        lemma_decimal_digits(n / 10);
        assert(crate::text::digit_char((n % 10) as int) as u32 == 48 + n % 10);
        assert forall|i: int| 0 <= i < decimal(n).len() implies 48 <= #[trigger] decimal(n)[i] as u32
            <= 57 by {
            if i < decimal(n / 10).len() {
                assert(decimal(n)[i] == decimal(n / 10)[i]);
            }
        }
    }
}

/// Decimal notation holds neither `,` nor `}`.
pub proof fn lemma_decimal_plain(n: nat)
    ensures
        !decimal(n).contains(','),
        !decimal(n).contains('}'),
{
    lemma_decimal_digits(n);
}

/// Signed decimal notation holds no `,`.
pub proof fn lemma_signed_decimal_plain(n: int)
    ensures
        !signed_decimal(n).contains(','),
{
    if n < 0 {
        lemma_decimal_digits((-n) as nat);
        let s = signed_decimal(n);
        assert forall|i: int| 0 <= i < s.len() implies s[i] != ',' by {
            if i > 0 {
                assert(s[i] == decimal((-n) as nat)[i - 1]);
            }
        }
    } else {
        lemma_decimal_digits(n as nat);
    }
}

/// A JSON boolean holds no `,`, and the two differ.
pub proof fn lemma_bool_plain(b: bool)
    ensures
        !json_bool(b).contains(','),
        json_bool(true) != json_bool(false),
{
    reveal_strlit("true");
    reveal_strlit("false");
    assert(json_bool(true).len() == 4);
    assert(json_bool(false).len() == 5);
}

} // verus!
