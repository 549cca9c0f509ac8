//! Translation between the messenger's text smileys and Unicode emoji.
//!
//! Each table is applied entry by entry, in its own order, so that text in
//! which smileys overlap always translates the same way.

use vstd::prelude::*;

verus! {

/// `s` with every occurrence of `from`, found from the left and not
/// overlapping, replaced by `to`. An empty `from` leaves `s` as it is.
pub open spec fn replace_all(s: Seq<char>, from: Seq<char>, to: Seq<char>) -> Seq<char>
    decreases s.len(),
{
    if from.len() == 0 || s.len() < from.len() {
        s
    } else if s.subrange(0, from.len() as int) == from {
        to + replace_all(s.subrange(from.len() as int, s.len() as int), from, to)
    } else {
        seq![s[0]] + replace_all(s.subrange(1, s.len() as int), from, to)
    }
}

/// `s` after each replacement of `pairs`, in order.
pub open spec fn replace_each(s: Seq<char>, pairs: Seq<(Seq<char>, Seq<char>)>) -> Seq<char>
    decreases pairs.len(),
{
    if pairs.len() == 0 {
        s
    } else {
        replace_each(replace_all(s, pairs[0].0, pairs[0].1), pairs.drop_first())
    }
}

pub open spec fn pairs_view(t: Seq<(&str, &str)>) -> Seq<(Seq<char>, Seq<char>)> {
    t.map_values(|p: (&str, &str)| (p.0@, p.1@))
}

/// Relies on `str::replace`: every occurrence of `from`, found from the left
/// and not overlapping, becomes `to`.
#[verifier::external_body]
fn replace(s: &str, from: &str, to: &str) -> (r: String)
    requires
        from@.len() > 0,
    ensures
        r@ == replace_all(s@, from@, to@),
{
    s.replace(from, to)
}

/// `msg` after each replacement of `table`, in order.
fn translate(msg: &String, table: &[(&str, &str)]) -> (r: String)
    ensures
        r@ == replace_each(msg@, pairs_view(table@)),
{
    let ghost pairs = pairs_view(table@);
    let mut out = msg.clone();
    let mut i: usize = 0;
    proof {
        assert(pairs.subrange(0, pairs.len() as int) =~= pairs);
    }
    while i < table.len()
        invariant
            i <= table@.len(),
            pairs == pairs_view(table@),
            replace_each(msg@, pairs) == replace_each(out@, pairs.subrange(i as int, pairs.len() as int)),
        decreases table@.len() - i,
    {
        let (from, to) = table[i];
        proof {
            let rest = pairs.subrange(i as int, pairs.len() as int);
            assert(rest[0] == (from@, to@));
            assert(rest.drop_first() =~= pairs.subrange(i + 1, pairs.len() as int));
        }
        if !from.is_empty() {
            out = replace(out.as_str(), from, to);
        }
        i += 1;
    }
    proof {
        assert(pairs.subrange(i as int, pairs.len() as int) =~= seq![]);
    }
    out
}

/// The text smileys and the emoji that stand for them.
pub open spec fn smiley_emojis() -> Seq<(Seq<char>, Seq<char>)> {
    seq![
        (":)"@, "🙂"@),
        (":D"@, "😁"@),
        (";)"@, "😉"@),
        (":-O"@, "😮"@),
        (":P"@, "😋"@),
        ("(H)"@, "😎"@),
        (":@"@, "😡"@),
        (":$"@, "😳"@),
        (":S"@, "😵‍💫"@),
        (":("@, "🙁"@),
        (":'("@, "😭"@),
        (":|"@, "😐️"@),
        ("(6)"@, "😈"@),
        ("(A)"@, "😇"@),
        ("(L)"@, "❤️"@),
        ("(U)"@, "💔"@),
        ("(M)"@, "💬"@),
        ("(@)"@, "🐱"@),
        ("(&)"@, "🐶"@),
        ("(S)"@, "🌜️"@),
        ("(*)"@, "⭐️"@),
        ("(~)"@, "🎞️"@),
        ("(8)"@, "🎵"@),
        ("(E)"@, "📧"@),
        ("(F)"@, "🌹"@),
        ("(W)"@, "🥀"@),
        ("(O)"@, "🕒"@),
        ("(K)"@, "💋"@),
        ("(G)"@, "🎁"@),
        ("(^)"@, "🎂"@),
        ("(P)"@, "📷"@),
        ("(I)"@, "💡"@),
        ("(C)"@, "☕"@),
        ("(T)"@, "📞"@),
        ("({)"@, "🧍‍♂️"@),
        ("(})"@, "🧍🏾‍♀️"@),
        ("(B)"@, "🍺"@),
        ("(D)"@, "🍸"@),
        ("(Z)"@, "🧍‍♂️"@),
        ("(X)"@, "🧍‍♀️"@),
        ("(Y)"@, "👍"@),
        ("(N)"@, "👎"@),
        (":["@, "🦇"@),
        ("(nnh)"@, "🐐"@),
        ("(#)"@, "☀️"@),
        ("(R)"@, "🌈"@),
        (":-#"@, "🤐"@),
        ("8o|"@, "😬"@),
        ("8-|"@, "🤓"@),
        ("^o)"@, "🤨"@),
        (":-*"@, "🤐"@),
        ("+o("@, "🤮"@),
        ("(sn)"@, "🐌"@),
        ("(tu)"@, "🐢"@),
        ("(pl)"@, "🍽️"@),
        ("(||)"@, "🥣"@),
        ("(pi)"@, "🍕"@),
        ("(so)"@, "⚽"@),
        ("(au)"@, "🚗"@),
        ("(ap)"@, "✈️"@),
        ("(um)"@, "☂️"@),
        ("(ip)"@, "🏝️"@),
        ("(co)"@, "🖥️"@),
        ("(mp)"@, "📱"@),
        ("(brb)"@, "👋"@),
        ("(st)"@, "🌧️"@),
        ("(h5)"@, "🖐️"@),
        ("(mo)"@, "🪙"@),
        ("(bah)"@, "🐑"@),
        (":^)"@, "🤔"@),
        ("*-)"@, "🤔"@),
        ("(li)"@, "🌩️"@),
        ("<:o)"@, "🥳"@),
        ("8-)"@, "🙄"@),
        ("|-)"@, "😴"@),
        ("('.')"@, "🐰"@),
    ]
}

fn smiley_emoji_table() -> (r: [(&'static str, &'static str); 76])
    ensures
        pairs_view(r@) == smiley_emojis(),
{
    let r = [
        (":)", "🙂"),
        (":D", "😁"),
        (";)", "😉"),
        (":-O", "😮"),
        (":P", "😋"),
        ("(H)", "😎"),
        (":@", "😡"),
        (":$", "😳"),
        (":S", "😵‍💫"),
        (":(", "🙁"),
        (":'(", "😭"),
        (":|", "😐️"),
        ("(6)", "😈"),
        ("(A)", "😇"),
        ("(L)", "❤️"),
        ("(U)", "💔"),
        ("(M)", "💬"),
        ("(@)", "🐱"),
        ("(&)", "🐶"),
        ("(S)", "🌜️"),
        ("(*)", "⭐️"),
        ("(~)", "🎞️"),
        ("(8)", "🎵"),
        ("(E)", "📧"),
        ("(F)", "🌹"),
        ("(W)", "🥀"),
        ("(O)", "🕒"),
        ("(K)", "💋"),
        ("(G)", "🎁"),
        ("(^)", "🎂"),
        ("(P)", "📷"),
        ("(I)", "💡"),
        ("(C)", "☕"),
        ("(T)", "📞"),
        ("({)", "🧍‍♂️"),
        ("(})", "🧍🏾‍♀️"),
        ("(B)", "🍺"),
        ("(D)", "🍸"),
        ("(Z)", "🧍‍♂️"),
        ("(X)", "🧍‍♀️"),
        ("(Y)", "👍"),
        ("(N)", "👎"),
        (":[", "🦇"),
        ("(nnh)", "🐐"),
        ("(#)", "☀️"),
        ("(R)", "🌈"),
        (":-#", "🤐"),
        ("8o|", "😬"),
        ("8-|", "🤓"),
        ("^o)", "🤨"),
        (":-*", "🤐"),
        ("+o(", "🤮"),
        ("(sn)", "🐌"),
        ("(tu)", "🐢"),
        ("(pl)", "🍽️"),
        ("(||)", "🥣"),
        ("(pi)", "🍕"),
        ("(so)", "⚽"),
        ("(au)", "🚗"),
        ("(ap)", "✈️"),
        ("(um)", "☂️"),
        ("(ip)", "🏝️"),
        ("(co)", "🖥️"),
        ("(mp)", "📱"),
        ("(brb)", "👋"),
        ("(st)", "🌧️"),
        ("(h5)", "🖐️"),
        ("(mo)", "🪙"),
        ("(bah)", "🐑"),
        (":^)", "🤔"),
        ("*-)", "🤔"),
        ("(li)", "🌩️"),
        ("<:o)", "🥳"),
        ("8-)", "🙄"),
        ("|-)", "😴"),
        ("('.')", "🐰"),
    ];
    assert(pairs_view(r@) =~= smiley_emojis());
    r
}

/// The emoji that have a text smiley, and that smiley.
pub open spec fn emoji_smileys() -> Seq<(Seq<char>, Seq<char>)> {
    seq![
        ("🙂"@, ":)"@),
        ("😁"@, ":D"@),
        ("😉"@, ";)"@),
        ("😮"@, ":-O"@),
        ("😋"@, ":P"@),
        ("😎"@, "(H)"@),
        ("😡"@, ":@"@),
        ("😵‍💫"@, ":S"@),
        ("😳"@, ":$"@),
        ("🙁"@, ":("@),
    ]
}

fn emoji_smiley_table() -> (r: [(&'static str, &'static str); 10])
    ensures
        pairs_view(r@) == emoji_smileys(),
{
    let r = [
        ("🙂", ":)"),
        ("😁", ":D"),
        ("😉", ";)"),
        ("😮", ":-O"),
        ("😋", ":P"),
        ("😎", "(H)"),
        ("😡", ":@"),
        ("😵‍💫", ":S"),
        ("😳", ":$"),
        ("🙁", ":("),
    ];
    assert(pairs_view(r@) =~= emoji_smileys());
    r
}

/// `msg` with each text smiley of the messenger replaced by its emoji, the
/// smileys taken in the order of `smiley_emojis`.
pub fn smiley_to_emoji(msg: &String) -> (r: String)
    ensures
        r@ == replace_each(msg@, smiley_emojis()),
{
    let table = smiley_emoji_table();
    translate(msg, table.as_slice())
}

/// `msg` with each emoji that has a text smiley replaced by it, the emoji
/// taken in the order of `emoji_smileys`.
pub fn emoji_to_smiley(msg: &String) -> (r: String)
    ensures
        r@ == replace_each(msg@, emoji_smileys()),
{
    let table = emoji_smiley_table();
    translate(msg, table.as_slice())
}

} // verus!
