//! The names that an actor's methods may have, and those that are made of
//! them.
use vstd::prelude::*;

verus! {

/// The first character of what `char::to_uppercase` gives for a character
/// beyond ASCII.
pub uninterp spec fn upper_beyond_ascii(c: char) -> char;

/// The capital for a character.
pub open spec fn capital(c: char) -> char {
    if 'a' <= c <= 'z' {
        (c as u32 - 32) as char
    } else if (c as u32) < 128 {
        c
    } else {
        upper_beyond_ascii(c)
    }
}

/// The first of what `char::to_uppercase` gives for a character, which is
/// never empty. A letter of the ASCII alphabet has its capital, and any other
/// ASCII character stands for itself.
#[verifier::external_body]
fn to_capital(c: char) -> (upper: char)
    ensures
        upper == (if 'a' <= c <= 'z' {
            (c as u32 - 32) as char
        } else if (c as u32) < 128 {
            c
        } else {
            upper_beyond_ascii(c)
        }),
{
    c.to_uppercase().next().unwrap()
}

/// A name in snake case, as the name of a message: the underscores are left
/// out, and what stands first or behind one of them is a capital.
pub open spec fn camel(name: Seq<char>) -> Seq<char>
    decreases name.len(),
{
    if name.len() == 0 {
        Seq::empty()
    } else {
        let earlier = camel(name.drop_last());
        let c = name.last();
        if c == '_' {
            earlier
        } else if name.len() == 1 || name[name.len() - 2] == '_' {
            earlier.push(capital(c))
        } else {
            earlier.push(c)
        }
    }
}

/// The name of the message that calls a method.
pub fn snake_to_camel(name: &str) -> (variant: String)
    ensures
        variant@ == camel(name@),
{
    let mut variant = String::new();
    let mut capitalize_next = true;
    let mut i: usize = 0;
    let n: usize = name.unicode_len();
    assert(name@.take(0) =~= Seq::<char>::empty());
    while i < n
        invariant
            0 <= i <= n,
            n == name@.len(),
            variant@ == camel(name@.take(i as int)),
            capitalize_next == (i == 0 || name@[i - 1] == '_'),
        decreases n - i,
    {
        let c = name.get_char(i);
        assert(name@.take(i + 1).drop_last() =~= name@.take(i as int));
        if c == '_' {
            capitalize_next = true;
        } else if capitalize_next {
            variant.push(to_capital(c));
            capitalize_next = false;
        } else {
            variant.push(c);
        }
        i = i + 1;
    }
    assert(name@.take(i as int) =~= name@);
    variant
}

/// A name without the mark of a raw identifier.
pub open spec fn plain(name: Seq<char>) -> Seq<char> {
    if name.len() >= 2 && name[0] == 'r' && name[1] == '#' {
        name.skip(2)
    } else {
        name
    }
}

/// Takes the mark of a raw identifier off a name.
pub fn strip_raw(name: &str) -> (stripped: String)
    ensures
        stripped@ == plain(name@),
{
    let n: usize = name.unicode_len();
    if n < 2 || name.get_char(0) != 'r' || name.get_char(1) != '#' {
        return name.to_owned();
    }
    let mut stripped = String::new();
    let mut i: usize = 2;
    while i < n
        invariant
            2 <= i <= n,
            n == name@.len(),
            stripped@ == name@.subrange(2, i as int),
        decreases n - i,
    {
        stripped.push(name.get_char(i));
        assert(name@.subrange(2, i + 1) =~= name@.subrange(2, i as int).push(name@[i as int]));
        i = i + 1;
    }
    assert(name@.subrange(2, n as int) =~= name@.skip(2));
    stripped
}

/// The text ends with `suffix`.
pub open spec fn has_suffix(text: Seq<char>, suffix: Seq<char>) -> bool {
    suffix.len() <= text.len() && text.skip(text.len() - suffix.len()) == suffix
}

/// Whether the text ends with `suffix`.
pub fn ends_with(text: &str, suffix: &str) -> (b: bool)
    ensures
        b == has_suffix(text@, suffix@),
{
    let n: usize = text.unicode_len();
    let k: usize = suffix.unicode_len();
    if k > n {
        return false;
    }
    let mut i: usize = 0;
    while i < k
        invariant
            0 <= i <= k <= n,
            n == text@.len(),
            k == suffix@.len(),
            forall|j: int| 0 <= j < i ==> text@[n - k + j] == #[trigger] suffix@[j],
        decreases k - i,
    {
        if text.get_char(n - k + i) != suffix.get_char(i) {
            assert(text@.skip(n - k)[i as int] != suffix@[i as int]);
            return false;
        }
        i = i + 1;
    }
    assert(text@.skip(n - k) =~= suffix@);
    true
}

/// Whether the two texts are the same.
pub fn is_text(text: &String, other: &str) -> (b: bool)
    ensures
        b == (text@ == other@),
{
    *text == other.to_owned()
}

/// Each handle has a method of this name, whatever the actor.
pub open spec fn is_reserved(name: Seq<char>) -> bool {
    ||| name == "new"@
    ||| name == "stop"@
    ||| name == "stop_wait"@
    ||| name == "mailbox_len"@
    ||| name == "idle_for"@
    ||| name == "silence_for"@
    ||| name == "inflight_count"@
    ||| name == "incarnation"@
    ||| name == "is_closed"@
    ||| name == "is_terminated"@
}

/// Whether each handle has a method of this name.
pub fn check_reserved(name: &String) -> (b: bool)
    ensures
        b == is_reserved(name@),
{
    is_text(name, "new") || is_text(name, "stop") || is_text(name, "stop_wait") || is_text(
        name,
        "mailbox_len",
    ) || is_text(name, "idle_for") || is_text(name, "silence_for") || is_text(
        name,
        "inflight_count",
    ) || is_text(name, "incarnation") || is_text(name, "is_closed") || is_text(
        name,
        "is_terminated",
    )
}

/// The name ends as the names do that are made of those of the methods.
pub open spec fn is_derived(name: Seq<char>) -> bool {
    ||| has_suffix(name, "_wait"@)
    ||| has_suffix(name, "_timeout"@)
    ||| has_suffix(name, "_wait_timeout"@)
}

/// Whether the name ends as the names do that are made of those of the
/// methods.
pub fn check_derived(name: &String) -> (b: bool)
    ensures
        b == is_derived(name@),
{
    ends_with(name.as_str(), "_wait") || ends_with(name.as_str(), "_timeout") || ends_with(
        name.as_str(),
        "_wait_timeout",
    )
}

/// In ASCII just the small letters have a capital of their own, thirty-two
/// places before them. Beyond ASCII every character has the one that the
/// standard library gives for it.
pub proof fn law_capitals(c: char)
    ensures
        'a' <= c <= 'z' ==> capital(c) as int == c as int - 32,
        (c as u32) < 128 && !('a' <= c <= 'z') ==> capital(c) == c,
        (c as u32) >= 128 ==> capital(c) == upper_beyond_ascii(c),
{
}

/// A word without underscores becomes a name by its first letter alone.
pub proof fn law_word_gets_a_capital(word: Seq<char>)
    requires
        word.len() > 0,
        !word.contains('_'),
    ensures
        camel(word) == seq![capital(word[0])] + word.skip(1),
    decreases word.len(),
{
    let n = word.len() as int;
    assert(word[n - 1] != '_');
    if n == 1 {
        assert(camel(word.drop_last()) =~= Seq::<char>::empty());
        assert(camel(word) =~= seq![capital(word[0])] + word.skip(1));
    } else {
        let front = word.drop_last();
        assert(word[n - 2] != '_');
        assert forall|i: int| 0 <= i < front.len() implies front[i] != '_' by {
            assert(front[i] == word[i]);
        }
        law_word_gets_a_capital(front);
        assert(camel(word) =~= seq![capital(word[0])] + word.skip(1));
    }
}

/// An underscore parts two words, and is left out: what stands before it and
/// what stands behind it become names apart.
pub proof fn law_underscore_parts_words(before: Seq<char>, behind: Seq<char>)
    ensures
        camel(before + seq!['_'] + behind) == camel(before) + camel(behind),
        camel(Seq::<char>::empty()) == Seq::<char>::empty(),
    decreases behind.len(),
{
    let all = before + seq!['_'] + behind;
    if behind.len() == 0 {
        assert(all.drop_last() =~= before);
        assert(camel(behind) =~= Seq::<char>::empty());
        assert(camel(all) =~= camel(before) + camel(behind));
    } else {
        let front = behind.drop_last();
        law_underscore_parts_words(before, front);
        assert(all.drop_last() =~= before + seq!['_'] + front);
        assert(all.last() == behind.last());
        if behind.len() > 1 {
            assert(all[all.len() - 2] == behind[behind.len() - 2]);
        } else {
            assert(all[all.len() - 2] == '_');
        }
        assert(camel(all) =~= camel(before) + camel(behind));
    }
}

/// A text ends with another just where it is that other with something put
/// before it.
pub proof fn law_suffix(text: Seq<char>, suffix: Seq<char>, before: Seq<char>)
    ensures
        has_suffix(before + suffix, suffix),
        has_suffix(text, suffix) ==> text == text.take(text.len() - suffix.len()) + suffix,
{
    assert((before + suffix).skip(before.len() as int) =~= suffix);
    if has_suffix(text, suffix) {
        assert(text =~= text.take(text.len() - suffix.len()) + text.skip(
            text.len() - suffix.len(),
        ));
    }
}

/// The names that are made of a method's name are those of methods of handles,
/// and a name that is not made in this way is not taken for one.
pub proof fn law_derived_names(method: Seq<char>, name: Seq<char>)
    ensures
        is_derived(method + "_wait"@),
        is_derived(method + "_timeout"@),
        is_derived(method + "_wait_timeout"@),
        is_derived(name) ==> exists|m: Seq<char>|
            name == #[trigger] (m + "_wait"@) || name == m + "_timeout"@ || name == m
                + "_wait_timeout"@,
{
    law_suffix(name, "_wait"@, method);
    law_suffix(name, "_timeout"@, method);
    law_suffix(name, "_wait_timeout"@, method);
    if is_derived(name) {
        let k = if has_suffix(name, "_wait"@) {
            name.len() - "_wait"@.len()
        } else if has_suffix(name, "_timeout"@) {
            name.len() - "_timeout"@.len()
        } else {
            name.len() - "_wait_timeout"@.len()
        };
        let m = name.take(k);
        assert(name == m + "_wait"@ || name == m + "_timeout"@ || name == m + "_wait_timeout"@);
    }
}

/// The names that each handle has, and no others.
pub proof fn law_reserved_names(name: Seq<char>)
    ensures
        is_reserved(name) <==> seq![
            "new"@,
            "stop"@,
            "stop_wait"@,
            "mailbox_len"@,
            "idle_for"@,
            "silence_for"@,
            "inflight_count"@,
            "incarnation"@,
            "is_closed"@,
            "is_terminated"@,
        ].contains(name),
{
    let names = seq![
        "new"@,
        "stop"@,
        "stop_wait"@,
        "mailbox_len"@,
        "idle_for"@,
        "silence_for"@,
        "inflight_count"@,
        "incarnation"@,
        "is_closed"@,
        "is_terminated"@,
    ];
    assert(names[0] == "new"@ && names[1] == "stop"@ && names[2] == "stop_wait"@);
    assert(names[3] == "mailbox_len"@ && names[4] == "idle_for"@ && names[5] == "silence_for"@);
    assert(names[6] == "inflight_count"@ && names[7] == "incarnation"@);
    assert(names[8] == "is_closed"@ && names[9] == "is_terminated"@);
}

/// Only the mark of a raw identifier is taken off a name, and only once.
pub proof fn law_raw_mark(name: Seq<char>)
    ensures
        plain("r#"@ + name) == name,
        plain(name) == name || name == "r#"@ + plain(name),
        plain(name) == name <==> !(name.len() >= 2 && name[0] == 'r' && name[1] == '#'),
{
    reveal_strlit("r#");
    assert(("r#"@ + name).skip(2) =~= name);
    if name.len() >= 2 && name[0] == 'r' && name[1] == '#' {
        assert(name =~= "r#"@ + name.skip(2));
    }
}

} // verus!
