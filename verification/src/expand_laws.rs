//! What holds of every expansion.
use crate::expand::{
    args_error, expansion_of, field_places, has_typed, has_variant, kind_text, message_plan,
    messages_of, outcome, ref_methods, ExpandError, ExpandErrorView, Expansion, ExpansionView,
    MessagePlan, MessagePlanView, RefMethod, RefMethodView, SendMode,
};
use crate::naming::{camel, capital, has_suffix, is_derived, is_reserved, plain};
use crate::shape::{ActorView, ArgKind, MemberView};
use vstd::prelude::*;

verus! {

/// The message is that of the method at its place, which is as it should be.
spec fn is_sound(
    plan: MessagePlanView,
    items: Seq<Option<MemberView>>,
    msg_enum: Seq<char>,
) -> bool {
    &&& 0 <= plan.item < items.len()
    &&& items[plan.item] matches Some(MemberView { name, message: Some(message) })
    &&& plan == message_plan(plan.item, name, message, msg_enum)
    &&& !is_reserved(name)
    &&& !is_derived(name)
    &&& message.args.len() > 0
    &&& message.args[0] is Receiver
    &&& args_error(plan.item, message.args) is None
}

proof fn lemma_messages(
    items: Seq<Option<MemberView>>,
    msg_enum: Seq<char>,
    messages: Seq<MessagePlanView>,
)
    requires
        messages_of(items, msg_enum) == Ok::<_, ExpandErrorView>(messages),
    ensures
        forall|k: int|
            0 <= k < messages.len() ==> is_sound(#[trigger] messages[k], items, msg_enum),
        forall|j: int, k: int|
            0 <= j < k < messages.len() ==> #[trigger] messages[j].variant
                != #[trigger] messages[k].variant,
    decreases items.len(),
{
    if items.len() > 0 {
        let before = items.drop_last();
        let earlier = messages_of(before, msg_enum)->Ok_0;
        lemma_messages(before, msg_enum, earlier);
        assert forall|k: int| 0 <= k < earlier.len() implies is_sound(
            #[trigger] earlier[k],
            items,
            msg_enum,
        ) by {
            assert(is_sound(earlier[k], before, msg_enum));
            assert(before[earlier[k].item] == items[earlier[k].item]);
        }
        if let Some(MemberView { name, message: Some(message) }) = items.last() {
            let n = earlier.len() as int;
            assert(messages == earlier.push(
                message_plan(items.len() - 1, name, message, msg_enum),
            ));
            assert forall|j: int| 0 <= j < n implies #[trigger] messages[j].variant
                != messages[n].variant by {
                assert(messages[j] == earlier[j]);
                assert(!has_variant(earlier, camel(name)));
            }
            assert forall|k: int| 0 <= k < messages.len() implies is_sound(
                #[trigger] messages[k],
                items,
                msg_enum,
            ) by {
                if k < n {
                    assert(messages[k] == earlier[k]);
                }
            }
            assert forall|j: int, k: int|
                0 <= j < k < messages.len() implies #[trigger] messages[j].variant
                != #[trigger] messages[k].variant by {
                assert(messages[j] == earlier[j]);
                if k < n {
                    assert(messages[k] == earlier[k]);
                }
            }
        }
    }
}

/// No two methods of an actor share a message: each message has a name of its
/// own.
pub proof fn law_messages_have_names_of_their_own(
    items: Seq<Option<MemberView>>,
    msg_enum: Seq<char>,
    messages: Seq<MessagePlanView>,
    j: int,
    k: int,
)
    requires
        messages_of(items, msg_enum) == Ok::<_, ExpandErrorView>(messages),
        0 <= j < k < messages.len(),
    ensures
        messages[j].variant != messages[k].variant,
        messages[j].kind != messages[k].kind,
{
    lemma_messages(items, msg_enum, messages);
    let (a, b) = (messages[j], messages[k]);
    assert(is_sound(a, items, msg_enum) && is_sound(b, items, msg_enum));
    if a.kind == b.kind {
        let n = (msg_enum + "::"@).len() as int;
        assert(a.kind.skip(n) =~= a.variant);
        assert(b.kind.skip(n) =~= b.variant);
    }
}

/// Each method that is marked has a message, and no item has two: the
/// messages come in the order of the methods.
pub proof fn law_each_marked_method_has_a_message(
    items: Seq<Option<MemberView>>,
    msg_enum: Seq<char>,
    messages: Seq<MessagePlanView>,
    i: int,
)
    requires
        messages_of(items, msg_enum) == Ok::<_, ExpandErrorView>(messages),
        0 <= i < items.len(),
    ensures
        items[i] is Some && items[i]->0.message is Some <==> exists|k: int|
            0 <= k < messages.len() && #[trigger] messages[k].item == i,
        forall|j: int, k: int|
            0 <= j < k < messages.len() ==> #[trigger] messages[j].item
                < #[trigger] messages[k].item,
    decreases items.len(),
{
    let before = items.drop_last();
    let earlier = messages_of(before, msg_enum)->Ok_0;
    let n = before.len() as int;
    lemma_messages(items, msg_enum, messages);
    lemma_messages(before, msg_enum, earlier);
    assert forall|k: int| 0 <= k < earlier.len() implies #[trigger] earlier[k].item < n by {
        assert(is_sound(earlier[k], before, msg_enum));
    }
    assert forall|k: int| 0 <= k < earlier.len() implies earlier[k] == #[trigger] messages[k] by {}
    if 0 < n {
        let at = if i < n {
            i
        } else {
            0
        };
        law_each_marked_method_has_a_message(before, msg_enum, earlier, at);
    }
    if i < n {
        assert(items[i] == before[i]);
        if exists|k: int| 0 <= k < earlier.len() && #[trigger] earlier[k].item == i {
            let k = choose|k: int| 0 <= k < earlier.len() && #[trigger] earlier[k].item == i;
            assert(messages[k].item == i);
        }
        if exists|k: int| 0 <= k < messages.len() && #[trigger] messages[k].item == i {
            let k = choose|k: int| 0 <= k < messages.len() && #[trigger] messages[k].item == i;
            assert(k < earlier.len());
            assert(earlier[k].item == i);
        }
    } else {
        if items[i] is Some && items[i]->0.message is Some {
            assert(messages[earlier.len() as int].item == i);
        }
        if exists|k: int| 0 <= k < messages.len() && #[trigger] messages[k].item == i {
            let k = choose|k: int| 0 <= k < messages.len() && #[trigger] messages[k].item == i;
            assert(is_sound(messages[k], items, msg_enum));
        }
    }
}

proof fn lemma_appended(name: Seq<char>, suffix: Seq<char>)
    ensures
        has_suffix(name + suffix, suffix),
        (name + suffix).take(name.len() as int) == name,
{
    assert((name + suffix).skip(name.len() as int) =~= suffix);
    assert((name + suffix).take(name.len() as int) =~= name);
}

/// What a method of the handle is called behind the name of the method.
spec fn tail(mode: SendMode) -> Seq<char> {
    match mode {
        SendMode::Tell | SendMode::Ask => Seq::empty(),
        SendMode::TellWait | SendMode::AskWait => "_wait"@,
        SendMode::AskWaitTimeout => "_wait_timeout"@,
        SendMode::AskTimeout => "_timeout"@,
    }
}

proof fn lemma_ref_method(method: Seq<char>, replies: bool, a: int)
    requires
        0 <= a < ref_methods(method, replies).len(),
    ensures
        ref_methods(method, replies)[a].name == method + tail(ref_methods(method, replies)[a].mode),
        forall|b: int|
            0 <= b < ref_methods(method, replies).len() && b != a ==> tail(
                #[trigger] ref_methods(method, replies)[b].mode,
            ) != tail(ref_methods(method, replies)[a].mode),
{
    reveal_strlit("_wait");
    reveal_strlit("_timeout");
    reveal_strlit("_wait_timeout");
    assert(method + Seq::<char>::empty() =~= method);
    assert("_wait"@.len() == 5 && "_timeout"@.len() == 8 && "_wait_timeout"@.len() == 13);
}

/// Names that are made of two methods are the same only where they are made
/// of the same method in the same way.
proof fn lemma_tails_apart(m1: Seq<char>, mode1: SendMode, m2: Seq<char>, mode2: SendMode)
    requires
        !is_derived(m1),
        !is_derived(m2),
        m1 + tail(mode1) == m2 + tail(mode2),
    ensures
        m1 == m2,
        tail(mode1) == tail(mode2),
{
    reveal_strlit("_wait");
    reveal_strlit("_timeout");
    reveal_strlit("_wait_timeout");
    let (w, t, wt) = ("_wait"@, "_timeout"@, "_wait_timeout"@);
    let (t1, t2) = (tail(mode1), tail(mode2));
    let (x, y) = (m1 + t1, m2 + t2);
    assert(wt =~= w + t);
    lemma_appended(m1, t1);
    lemma_appended(m2, t2);
    assert(m1 + Seq::<char>::empty() =~= m1);
    assert(m2 + Seq::<char>::empty() =~= m2);
    if t1 == t2 {
        assert(m1 =~= m2) by {
            assert(x.take(m1.len() as int) == y.take(m2.len() as int));
        }
    } else {
        if t1.len() == 0 {
            assert(has_suffix(m1, t2));
        } else if t2.len() == 0 {
            assert(has_suffix(m2, t1));
        } else if t1 == w || t2 == w {
            assert(x[x.len() - 2] == t1[t1.len() - 2]);
            assert(y[y.len() - 2] == t2[t2.len() - 2]);
        } else if t1 == t {
            assert(y =~= (m2 + w) + t);
            lemma_appended(m2, w);
            lemma_appended(m2 + w, t);
            assert(m1 == m2 + w);
            assert(has_suffix(m1, w));
        } else {
            assert(x =~= (m1 + w) + t);
            lemma_appended(m1, w);
            lemma_appended(m1 + w, t);
            assert(m2 == m1 + w);
            assert(has_suffix(m2, w));
        }
    }
}

/// What is made of a method is no name that every handle has.
proof fn lemma_not_reserved(method: Seq<char>, mode: SendMode)
    requires
        !is_reserved(method),
        !is_derived(method),
    ensures
        !is_reserved(method + tail(mode)),
{
    reveal_strlit("_wait");
    reveal_strlit("_timeout");
    reveal_strlit("_wait_timeout");
    reveal_strlit("new");
    reveal_strlit("stop");
    reveal_strlit("stop_wait");
    reveal_strlit("mailbox_len");
    reveal_strlit("idle_for");
    reveal_strlit("silence_for");
    reveal_strlit("inflight_count");
    reveal_strlit("incarnation");
    reveal_strlit("is_closed");
    reveal_strlit("is_terminated");
    let t = tail(mode);
    let x = method + t;
    assert(method + Seq::<char>::empty() =~= method);
    lemma_appended(method, t);
    if t.len() > 0 && is_reserved(x) {
        let n = x.len() as int;
        assert(x[n - 1] == t[t.len() - 1]);
        assert(x[n - 2] == t[t.len() - 2]);
        if x == "stop_wait"@ {
            assert(t == "_wait"@);
            assert(method =~= "stop"@);
        }
    }
}

/// The handle of an actor has no two methods of one name: neither do two
/// names that are made of the actor's methods meet, nor one of them with a
/// name that every handle has.
pub proof fn law_handle_methods_do_not_collide(
    items: Seq<Option<MemberView>>,
    msg_enum: Seq<char>,
    messages: Seq<MessagePlanView>,
    j: int,
    a: int,
    k: int,
    b: int,
)
    requires
        messages_of(items, msg_enum) == Ok::<_, ExpandErrorView>(messages),
        0 <= j < messages.len(),
        0 <= a < messages[j].ref_methods.len(),
        0 <= k < messages.len(),
        0 <= b < messages[k].ref_methods.len(),
    ensures
        messages[j].ref_methods[a].name == messages[k].ref_methods[b].name ==> j == k && a == b,
        !is_reserved(messages[j].ref_methods[a].name),
{
    lemma_messages(items, msg_enum, messages);
    let (p, q) = (messages[j], messages[k]);
    assert(is_sound(p, items, msg_enum) && is_sound(q, items, msg_enum));
    lemma_ref_method(p.method, p.replies, a);
    lemma_ref_method(q.method, q.replies, b);
    lemma_not_reserved(p.method, p.ref_methods[a].mode);
    if p.ref_methods[a].name == q.ref_methods[b].name {
        lemma_tails_apart(p.method, p.ref_methods[a].mode, q.method, q.ref_methods[b].mode);
        assert(p.variant == q.variant);
        assert(j == k);
    }
}

/// A method without an answer is called by telling, and one with an answer by
/// asking. Both ways there is a method that waits for room, and for an answer
/// there are also two that give it a time.
pub proof fn law_answers_are_asked_for(
    items: Seq<Option<MemberView>>,
    msg_enum: Seq<char>,
    messages: Seq<MessagePlanView>,
    k: int,
)
    requires
        messages_of(items, msg_enum) == Ok::<_, ExpandErrorView>(messages),
        0 <= k < messages.len(),
    ensures
        messages[k].replies ==> messages[k].ref_methods.map_values(|m: RefMethodView| m.mode)
            == seq![
            SendMode::Ask,
            SendMode::AskWait,
            SendMode::AskWaitTimeout,
            SendMode::AskTimeout,
        ],
        !messages[k].replies ==> messages[k].ref_methods.map_values(|m: RefMethodView| m.mode)
            == seq![SendMode::Tell, SendMode::TellWait],
{
    lemma_messages(items, msg_enum, messages);
    assert(is_sound(messages[k], items, msg_enum));
}

/// The place is that of an argument that goes into the message.
proof fn lemma_field_places(args: Seq<ArgKind>, i: int)
    ensures
        field_places(args).contains(i) <==> 1 <= i < args.len() && args[i] is Field,
    decreases args.len(),
{
    if args.len() > 1 {
        let n = args.len() - 1;
        let earlier = field_places(args.drop_last());
        lemma_field_places(args.drop_last(), i);
        if args.last() is Field {
            let all = earlier.push(n);
            assert(all[earlier.len() as int] == n);
            if earlier.contains(i) {
                let j = choose|j: int| 0 <= j < earlier.len() && earlier[j] == i;
                assert(all[j] == i);
            }
            if all.contains(i) && i != n {
                let j = choose|j: int| 0 <= j < all.len() && all[j] == i;
                assert(earlier[j] == i);
            }
        }
    }
}

/// Without an error each argument behind `self` is a plain name, and none but
/// the first is a context.
proof fn lemma_args_are_fine(item: int, args: Seq<ArgKind>, i: int)
    requires
        args_error(item, args) is None,
        1 <= i < args.len(),
        args[i] !is Receiver,
    ensures
        args[i] !is NotSimple,
        args[i] is Context ==> forall|h: int| 1 <= h < i ==> #[trigger] args[h] is Receiver,
    decreases args.len(),
{
    if i < args.len() - 1 {
        lemma_args_are_fine(item, args.drop_last(), i);
        assert forall|h: int| args[i] is Context && 1 <= h < i implies #[trigger] args[h]
            is Receiver by {
            assert(args.drop_last()[h] is Receiver);
        }
    } else {
        assert forall|h: int| args[i] is Context && 1 <= h < i implies #[trigger] args[h]
            is Receiver by {
            assert(!has_typed(args.drop_last()));
            assert(args.drop_last()[h] == args[h]);
        }
    }
}

/// Each argument behind `self` is accounted for: it goes into the message, or
/// it is the context, and then no other argument comes before it.
pub proof fn law_arguments_are_accounted_for(
    items: Seq<Option<MemberView>>,
    msg_enum: Seq<char>,
    messages: Seq<MessagePlanView>,
    k: int,
    i: int,
)
    requires
        messages_of(items, msg_enum) == Ok::<_, ExpandErrorView>(messages),
        0 <= k < messages.len(),
    ensures
        items[messages[k].item] matches Some(MemberView { message: Some(message), .. }) && {
            let args = message.args;
            &&& messages[k].fields.contains(i) <==> 1 <= i < args.len() && args[i] is Field
            &&& 1 <= i < args.len() && args[i] !is Receiver && args[i] !is Field ==> {
                &&& args[i] is Context
                &&& messages[k].with_context
                &&& forall|h: int| 1 <= h < i ==> #[trigger] args[h] is Receiver
            }
        },
{
    lemma_messages(items, msg_enum, messages);
    assert(is_sound(messages[k], items, msg_enum));
    if let Some(MemberView { message: Some(message), .. }) = items[messages[k].item] {
        lemma_field_places(message.args, i);
        if 1 <= i < message.args.len() && message.args[i] !is Receiver {
            lemma_args_are_fine(messages[k].item, message.args, i);
        }
    }
}

/// The message that stops an actor is no message of one of its methods: the
/// names of these hold no underscore, unless a capital is one.
pub proof fn law_stop_is_no_method(name: Seq<char>, msg_enum: Seq<char>)
    requires
        forall|i: int| 0 <= i < name.len() ==> capital(#[trigger] name[i]) == '_' ==> name[i] == '_',
    ensures
        !camel(name).contains('_'),
        camel(name) != "__Stop"@,
        kind_text(msg_enum, camel(name)) != kind_text(msg_enum, "__Stop"@),
{
    lemma_camel_has_no_underscore(name);
    reveal_strlit("__Stop");
    if camel(name) == "__Stop"@ {
        assert(camel(name)[0] == '_');
    }
    let n = (msg_enum + "::"@).len() as int;
    assert(kind_text(msg_enum, camel(name)).skip(n) =~= camel(name));
    assert(kind_text(msg_enum, "__Stop"@).skip(n) =~= "__Stop"@);
}

proof fn lemma_camel_has_no_underscore(name: Seq<char>)
    requires
        forall|i: int| 0 <= i < name.len() ==> capital(#[trigger] name[i]) == '_' ==> name[i] == '_',
    ensures
        !camel(name).contains('_'),
    decreases name.len(),
{
    if name.len() > 0 {
        let before = name.drop_last();
        assert forall|i: int| 0 <= i < before.len() && capital(#[trigger] before[i]) == '_' implies before[i]
            == '_' by {
            assert(before[i] == name[i]);
        }
        lemma_camel_has_no_underscore(before);
        assert(capital(name[name.len() - 1]) == '_' ==> name.last() == '_');
        assert forall|i: int| 0 <= i < camel(name).len() implies camel(name)[i] != '_' by {
            if i < camel(before).len() {
                assert(camel(name)[i] == camel(before)[i]);
            }
        }
    }
}

/// The message of a method is made of the method at its place and of nothing
/// else: it is asynchronous just where the method is, with an answer or without
/// one; it has an answer just where the method has; and its name and kind are
/// made of the method's name.
pub proof fn law_message_is_that_of_its_method(
    items: Seq<Option<MemberView>>,
    msg_enum: Seq<char>,
    messages: Seq<MessagePlanView>,
    k: int,
)
    requires
        messages_of(items, msg_enum) == Ok::<_, ExpandErrorView>(messages),
        0 <= k < messages.len(),
    ensures
        0 <= messages[k].item < items.len(),
        items[messages[k].item] is Some,
        items[messages[k].item]->0.message is Some,
        ({
            let name = items[messages[k].item]->0.name;
            let message = items[messages[k].item]->0.message->0;
            &&& messages[k].method == name
            &&& messages[k].is_async == message.is_async
            &&& messages[k].replies == message.replies
            &&& messages[k].variant == camel(name)
            &&& messages[k].kind == msg_enum + "::"@ + camel(name)
            &&& messages[k].with_context <==> exists|i: int|
                1 <= i < message.args.len() && #[trigger] message.args[i] is Context
        }),
{
    lemma_messages(items, msg_enum, messages);
    assert(is_sound(messages[k], items, msg_enum));
}

/// What goes into a message comes in the order of the arguments, each once.
pub proof fn law_fields_come_in_order(args: Seq<ArgKind>, a: int, b: int)
    requires
        0 <= a < b < field_places(args).len(),
    ensures
        field_places(args)[a] < field_places(args)[b],
    decreases args.len(),
{
    if args.len() > 1 {
        let earlier = field_places(args.drop_last());
        if b < earlier.len() {
            law_fields_come_in_order(args.drop_last(), a, b);
        } else {
            lemma_field_places(args.drop_last(), earlier[a]);
            assert(earlier.contains(earlier[a]));
        }
    }
}

/// The methods of the handle for one method: with an answer there are four, and
/// without one two, under the name itself and with what they do behind it.
pub proof fn law_which_handle_methods(method: Seq<char>)
    ensures
        ref_methods(method, false).len() == 2,
        ref_methods(method, false)[0] == (RefMethodView { name: method, mode: SendMode::Tell }),
        ref_methods(method, false)[1] == (RefMethodView {
            name: method + "_wait"@,
            mode: SendMode::TellWait,
        }),
        ref_methods(method, true).len() == 4,
        ref_methods(method, true)[0] == (RefMethodView { name: method, mode: SendMode::Ask }),
        ref_methods(method, true)[1] == (RefMethodView {
            name: method + "_wait"@,
            mode: SendMode::AskWait,
        }),
        ref_methods(method, true)[2] == (RefMethodView {
            name: method + "_wait_timeout"@,
            mode: SendMode::AskWaitTimeout,
        }),
        ref_methods(method, true)[3] == (RefMethodView {
            name: method + "_timeout"@,
            mode: SendMode::AskTimeout,
        }),
{
}

/// The handle methods of a message are those of its method.
pub proof fn law_message_has_its_handle_methods(
    items: Seq<Option<MemberView>>,
    msg_enum: Seq<char>,
    messages: Seq<MessagePlanView>,
    k: int,
)
    requires
        messages_of(items, msg_enum) == Ok::<_, ExpandErrorView>(messages),
        0 <= k < messages.len(),
    ensures
        messages[k].ref_methods == ref_methods(
            items[messages[k].item]->0.name,
            items[messages[k].item]->0.message->0.replies,
        ),
        messages[k].fields == field_places(items[messages[k].item]->0.message->0.args),
{
    lemma_messages(items, msg_enum, messages);
    assert(is_sound(messages[k], items, msg_enum));
}

/// The method at that place is called by messages.
pub open spec fn is_marked(items: Seq<Option<MemberView>>, i: int) -> bool {
    0 <= i < items.len() && items[i] is Some && items[i]->0.message is Some
}

/// The arguments of a method can be taken: `self` comes first, the others are
/// plain names, and no argument comes before a context.
pub open spec fn can_take_args(args: Seq<ArgKind>) -> bool {
    &&& args.len() > 0
    &&& args[0] is Receiver
    &&& forall|k: int|
        1 <= k < args.len() ==> {
            &&& #[trigger] args[k] !is NotSimple
            &&& args[k] is Context ==> forall|h: int| 1 <= h < k ==> #[trigger] args[h] is Receiver
        }
}

/// Every method that is called by messages can have one.
pub open spec fn can_all_have_messages(items: Seq<Option<MemberView>>) -> bool {
    &&& forall|i: int|
        #[trigger] is_marked(items, i) ==> {
            &&& !is_reserved(items[i]->0.name)
            &&& !is_derived(items[i]->0.name)
            &&& can_take_args(items[i]->0.message->0.args)
        }
    &&& forall|i: int, j: int|
        #[trigger] is_marked(items, i) && #[trigger] is_marked(items, j) && i < j ==> camel(
            items[i]->0.name,
        ) != camel(items[j]->0.name)
}

proof fn lemma_args_error(item: int, args: Seq<ArgKind>)
    requires
        args.len() > 0,
        args[0] is Receiver,
    ensures
        args_error(item, args) is None <==> can_take_args(args),
        args_error(item, args) matches Some(error) ==> {
            ||| error matches ExpandErrorView::NotSimple { item: i, arg } && i == item && 1 <= arg
                < args.len() && args[arg] is NotSimple && can_take_args(args.take(arg))
            ||| error matches ExpandErrorView::ContextNotFirst { item: i, arg } && i == item && 1
                <= arg < args.len() && args[arg] is Context && has_typed(args.take(arg))
                && can_take_args(args.take(arg))
        },
    decreases args.len(),
{
    if args.len() > 1 {
        let front = args.drop_last();
        let n = args.len() - 1;
        lemma_args_error(item, front);
        assert(args.take(n) =~= front);
        assert forall|k: int| 1 <= k < n implies front[k] == #[trigger] args[k] by {}
        if can_take_args(args) {
            assert forall|k: int| 1 <= k < front.len() implies {
                &&& #[trigger] front[k] !is NotSimple
                &&& front[k] is Context ==> forall|h: int|
                    1 <= h < k ==> #[trigger] front[h] is Receiver
            } by {
                assert(args[k] !is NotSimple);
                assert forall|h: int| front[k] is Context && 1 <= h < k implies #[trigger] front[h]
                    is Receiver by {
                    assert(args[h] is Receiver);
                }
            }
            assert(can_take_args(front));
            assert(args[n] !is NotSimple);
        }
        if args_error(item, front) is None {
            assert(args[n] == args.last());
            if args_error(item, args) is None {
                assert forall|k: int| 1 <= k < args.len() implies {
                    &&& #[trigger] args[k] !is NotSimple
                    &&& args[k] is Context ==> forall|h: int|
                        1 <= h < k ==> #[trigger] args[h] is Receiver
                } by {
                    if k < n {
                        assert(front[k] !is NotSimple);
                        assert forall|h: int| args[k] is Context && 1 <= h < k implies #[trigger] args[h]
                            is Receiver by {
                            assert(front[h] is Receiver);
                        }
                    } else {
                        assert forall|h: int| args[k] is Context && 1 <= h < k implies #[trigger] args[h]
                            is Receiver by {
                            assert(front[h] == args[h]);
                        }
                    }
                }
            }
        } else {
            let error = args_error(item, front)->0;
            match error {
                ExpandErrorView::NotSimple { arg, .. } => {
                    assert(front.take(arg) =~= args.take(arg));
                },
                ExpandErrorView::ContextNotFirst { arg, .. } => {
                    assert(front.take(arg) =~= args.take(arg));
                },
                _ => {},
            }
        }
    } else {
        assert(can_take_args(args));
    }
}

/// One of the messages of some items has that name just where the method is
/// among them that it would be made of.
proof fn lemma_variant_is_taken(
    items: Seq<Option<MemberView>>,
    msg_enum: Seq<char>,
    messages: Seq<MessagePlanView>,
    variant: Seq<char>,
)
    requires
        messages_of(items, msg_enum) == Ok::<_, ExpandErrorView>(messages),
    ensures
        has_variant(messages, variant) <==> exists|i: int| #[trigger]
            is_marked(items, i) && camel(items[i]->0.name) == variant,
{
    lemma_messages(items, msg_enum, messages);
    if has_variant(messages, variant) {
        let k = choose|k: int| 0 <= k < messages.len() && #[trigger] messages[k].variant == variant;
        assert(is_sound(messages[k], items, msg_enum));
        assert(is_marked(items, messages[k].item));
    }
    if exists|i: int| #[trigger] is_marked(items, i) && camel(items[i]->0.name) == variant {
        let i = choose|i: int| #[trigger] is_marked(items, i) && camel(items[i]->0.name) == variant;
        law_each_marked_method_has_a_message(items, msg_enum, messages, i);
        let k = choose|k: int| 0 <= k < messages.len() && #[trigger] messages[k].item == i;
        assert(is_sound(messages[k], items, msg_enum));
        assert(messages[k].variant == variant);
    }
}

/// An actor expands just where every method that messages are to call has a name
/// that is neither reserved nor made of another, a message name of its own, and
/// arguments that can be taken.
pub proof fn law_when_an_actor_expands(items: Seq<Option<MemberView>>, msg_enum: Seq<char>)
    ensures
        messages_of(items, msg_enum) is Ok <==> can_all_have_messages(items),
    decreases items.len(),
{
    if items.len() > 0 {
        let before = items.drop_last();
        let n = items.len() - 1;
        law_when_an_actor_expands(before, msg_enum);
        assert forall|i: int| 0 <= i < n implies #[trigger] is_marked(items, i) == is_marked(
            before,
            i,
        ) && items[i] == before[i] by {}
        assert forall|i: int| 0 <= i < n implies #[trigger] is_marked(before, i) == is_marked(
            items,
            i,
        ) by {}
        if can_all_have_messages(items) {
            assert(can_all_have_messages(before)) by {
                assert forall|i: int| #[trigger] is_marked(before, i) implies {
                    &&& !is_reserved(before[i]->0.name)
                    &&& !is_derived(before[i]->0.name)
                    &&& can_take_args(before[i]->0.message->0.args)
                } by {
                    assert(is_marked(items, i));
                }
                assert forall|i: int, j: int| #[trigger]
                    is_marked(before, i) && #[trigger] is_marked(before, j) && i < j implies camel(
                    before[i]->0.name,
                ) != camel(before[j]->0.name) by {
                    assert(is_marked(items, i) && is_marked(items, j));
                }
            }
        }
        if can_all_have_messages(before) {
            let earlier = messages_of(before, msg_enum)->Ok_0;
            if is_marked(items, n) {
                let name = items[n]->0.name;
                let args = items[n]->0.message->0.args;
                lemma_variant_is_taken(before, msg_enum, earlier, camel(name));
                if args.len() > 0 && args[0] is Receiver {
                    lemma_args_error(n, args);
                }
                if can_all_have_messages(items) && has_variant(earlier, camel(name)) {
                    let i = choose|i: int| #[trigger]
                        is_marked(before, i) && camel(before[i]->0.name) == camel(name);
                    assert(is_marked(items, i) && is_marked(items, n));
                }
                if messages_of(items, msg_enum) is Ok {
                    assert forall|i: int| #[trigger] is_marked(items, i) implies {
                        &&& !is_reserved(items[i]->0.name)
                        &&& !is_derived(items[i]->0.name)
                        &&& can_take_args(items[i]->0.message->0.args)
                    } by {
                        if i < n {
                            assert(is_marked(before, i));
                        }
                    }
                    assert forall|i: int, j: int| #[trigger]
                        is_marked(items, i) && #[trigger] is_marked(items, j) && i
                            < j implies camel(items[i]->0.name) != camel(items[j]->0.name) by {
                        assert(is_marked(before, i));
                        if j < n {
                            assert(is_marked(before, j));
                        }
                    }
                }
            } else {
                assert forall|i: int| #[trigger] is_marked(items, i) implies {
                    &&& !is_reserved(items[i]->0.name)
                    &&& !is_derived(items[i]->0.name)
                    &&& can_take_args(items[i]->0.message->0.args)
                } by {
                    assert(is_marked(before, i));
                }
                assert forall|i: int, j: int| #[trigger]
                    is_marked(items, i) && #[trigger] is_marked(items, j) && i < j implies camel(
                    items[i]->0.name,
                ) != camel(items[j]->0.name) by {
                    assert(is_marked(before, i) && is_marked(before, j));
                }
            }
        }
    } else {
        assert(can_all_have_messages(items));
    }
}

/// The place of the method that an error is about.
pub open spec fn place_of(error: ExpandErrorView) -> int {
    match error {
        ExpandErrorView::Reserved { item, .. } => item,
        ExpandErrorView::Derived { item } => item,
        ExpandErrorView::Collision { item, .. } => item,
        ExpandErrorView::NoReceiver { item } => item,
        ExpandErrorView::NotSimple { item, .. } => item,
        ExpandErrorView::ContextNotFirst { item, .. } => item,
        _ => -1,
    }
}

/// A method before that place has a message of the name that the method there
/// would have.
pub open spec fn is_taken_before(items: Seq<Option<MemberView>>, item: int) -> bool {
    exists|i: int| #[trigger]
        is_marked(items, i) && i < item && camel(items[i]->0.name) == camel(items[item]->0.name)
}

/// The error is the first thing that is wrong with the method at that place: its
/// name, its message, `self`, and then its arguments in their order.
pub open spec fn is_first_fault(
    items: Seq<Option<MemberView>>,
    item: int,
    error: ExpandErrorView,
) -> bool {
    let name = items[item]->0.name;
    let args = items[item]->0.message->0.args;
    if is_reserved(name) {
        error == (ExpandErrorView::Reserved { item, name })
    } else if is_derived(name) {
        error == (ExpandErrorView::Derived { item })
    } else if is_taken_before(items, item) {
        error == (ExpandErrorView::Collision { item, name, variant: camel(name) })
    } else if args.len() == 0 || args[0] !is Receiver {
        error == (ExpandErrorView::NoReceiver { item })
    } else {
        exists|arg: int|
            1 <= arg < args.len() && can_take_args(args.take(arg)) && {
                ||| #[trigger] args[arg] is NotSimple && error == (ExpandErrorView::NotSimple {
                    item,
                    arg,
                })
                ||| args[arg] is Context && has_typed(args.take(arg)) && error == (
                ExpandErrorView::ContextNotFirst { item, arg })
            }
    }
}

/// Something stands between `self` and the end of some arguments just where one
/// of them behind the first is not `self`.
pub proof fn law_has_typed(args: Seq<ArgKind>)
    ensures
        has_typed(args) <==> exists|h: int| 1 <= h < args.len() && #[trigger] args[h] !is Receiver,
{
}

/// Where an actor does not expand, the error is that of the first method that
/// cannot have a message, and of the first thing that is wrong with it.
pub proof fn law_first_error_is_told(
    items: Seq<Option<MemberView>>,
    msg_enum: Seq<char>,
    error: ExpandErrorView,
)
    requires
        messages_of(items, msg_enum) == Err::<Seq<MessagePlanView>, _>(error),
    ensures
        is_marked(items, place_of(error)),
        can_all_have_messages(items.take(place_of(error))),
        is_first_fault(items, place_of(error), error),
    decreases items.len(),
{
    if items.len() > 0 {
        let before = items.drop_last();
        let n = items.len() - 1;
        if let Err(earlier) = messages_of(before, msg_enum) {
            law_first_error_is_told(before, msg_enum, earlier);
            let item = place_of(error);
            assert(is_marked(before, item));
            assert(items[item] == before[item]);
            assert(before.take(item) =~= items.take(item));
            lemma_taken_before(items, item);
        } else {
            let earlier = messages_of(before, msg_enum)->Ok_0;
            law_when_an_actor_expands(before, msg_enum);
            assert(items.take(n) =~= before);
            let name = items[n]->0.name;
            let args = items[n]->0.message->0.args;
            lemma_variant_is_taken(before, msg_enum, earlier, camel(name));
            if args.len() > 0 && args[0] is Receiver {
                lemma_args_error(n, args);
            }
            assert(has_variant(earlier, camel(name)) <==> is_taken_before(items, n)) by {
                if has_variant(earlier, camel(name)) {
                    let i = choose|i: int| #[trigger]
                        is_marked(before, i) && camel(before[i]->0.name) == camel(name);
                    assert(is_marked(items, i));
                }
                if is_taken_before(items, n) {
                    let i = choose|i: int| #[trigger]
                        is_marked(items, i) && i < n && camel(items[i]->0.name) == camel(name);
                    assert(is_marked(before, i));
                }
            }
            if error is NotSimple {
                assert(args[error->NotSimple_arg] is NotSimple);
            }
            if error is ContextNotFirst {
                assert(args[error->ContextNotFirst_arg] is Context);
            }
        }
    }
}

/// What comes last does not matter to what is taken before a place.
proof fn lemma_taken_before(items: Seq<Option<MemberView>>, item: int)
    requires
        0 <= item < items.len() - 1,
    ensures
        is_taken_before(items, item) == is_taken_before(items.drop_last(), item),
{
    let before = items.drop_last();
    let name = items[item]->0.name;
    if is_taken_before(items, item) {
        let i = choose|i: int| #[trigger]
            is_marked(items, i) && i < item && camel(items[i]->0.name) == camel(name);
        assert(is_marked(before, i));
    }
    if is_taken_before(before, item) {
        let i = choose|i: int| #[trigger]
            is_marked(before, i) && i < item && camel(before[i]->0.name) == camel(name);
        assert(is_marked(items, i));
    }
}

/// What an actor expands to: the types are named after it, without the mark of a
/// raw identifier; each hook is there just where it has a method of that name;
/// and the messages, or what is wrong with them, are those of its items.
pub proof fn law_what_an_actor_expands_to(actor: ActorView)
    ensures
        actor.name is None ==> expansion_of(actor) == Err::<ExpansionView, _>(
            ExpandErrorView::NotAPath,
        ),
        actor.name matches Some(word) ==> {
            let msg_enum = plain(word) + "Msg"@;
            match messages_of(actor.items, msg_enum) {
                Err(error) => expansion_of(actor) == Err::<ExpansionView, _>(error),
                Ok(messages) => {
                    &&& expansion_of(actor) matches Ok(expansion)
                    &&& expansion.msg_enum == msg_enum
                    &&& expansion.ref_struct == plain(word) + "Ref"@
                    &&& expansion.stop_kind == msg_enum + "::__Stop"@
                    &&& expansion.messages == messages
                    &&& expansion.on_start <==> exists|i: int|
                        0 <= i < actor.items.len() && #[trigger] actor.items[i] is Some
                            && actor.items[i]->0.name == "on_start"@
                    &&& expansion.on_restart <==> exists|i: int|
                        0 <= i < actor.items.len() && #[trigger] actor.items[i] is Some
                            && actor.items[i]->0.name == "on_restart"@
                    &&& expansion.on_stop <==> exists|i: int|
                        0 <= i < actor.items.len() && #[trigger] actor.items[i] is Some
                            && actor.items[i]->0.name == "on_stop"@
                },
            }
        },
{
    reveal_strlit("::");
    reveal_strlit("__Stop");
    reveal_strlit("::__Stop");
    assert("::"@ + "__Stop"@ =~= "::__Stop"@);
    if let Some(word) = actor.name {
        let msg_enum = plain(word) + "Msg"@;
        assert(msg_enum + "::"@ + "__Stop"@ =~= msg_enum + "::__Stop"@);
    }
}

/// An error that is about a name tells the name, and one about a message that is
/// taken tells both; the words around them are always the same.
pub proof fn law_errors_tell_the_names(item: int, name: Seq<char>, variant: Seq<char>)
    ensures
        (ExpandErrorView::Reserved { item, name }).text() == "'"@ + name
            + "' is reserved by axactor ref API; choose a different #[msg] name"@,
        (ExpandErrorView::Collision { item, name, variant }).text()
            == "Variant name collision detected: '"@ + name
            + "' maps to already existing variant '"@ + variant + "'"@,
{
}

/// An expansion is shown as it is, message by message and method by method.
pub proof fn law_expansion_is_shown_as_it_is(
    expansion: Expansion,
    plan: MessagePlan,
    method: RefMethod,
    i: int,
)
    ensures
        expansion@.msg_enum == expansion.msg_enum@,
        expansion@.ref_struct == expansion.ref_struct@,
        expansion@.stop_kind == expansion.stop_kind@,
        expansion@.on_start == expansion.on_start,
        expansion@.on_restart == expansion.on_restart,
        expansion@.on_stop == expansion.on_stop,
        expansion@.messages.len() == expansion.messages@.len(),
        0 <= i < expansion.messages@.len() ==> expansion@.messages[i] == expansion.messages@[i]@,
        plan@.item == plan.item,
        plan@.method == plan.method@,
        plan@.variant == plan.variant@,
        plan@.kind == plan.kind@,
        plan@.with_context == plan.with_context,
        plan@.is_async == plan.is_async,
        plan@.replies == plan.replies,
        plan@.fields.len() == plan.fields@.len(),
        0 <= i < plan.fields@.len() ==> plan@.fields[i] == plan.fields@[i],
        plan@.ref_methods.len() == plan.ref_methods@.len(),
        0 <= i < plan.ref_methods@.len() ==> plan@.ref_methods[i] == plan.ref_methods@[i]@,
        method@.name == method.name@,
        method@.mode == method.mode,
{
}

/// An error is shown as it is, with its places and its names; and what comes of
/// an expansion is shown as a success or as an error just as it is one.
pub proof fn law_outcome_is_shown_as_it_is(
    error: ExpandError,
    expanded: Result<Expansion, ExpandError>,
)
    ensures
        error is Syntax <==> error@ is Syntax,
        error is NotAPath <==> error@ is NotAPath,
        error matches ExpandError::Reserved { item, name } ==> error@ == (
        ExpandErrorView::Reserved { item: item as int, name: name@ }),
        error matches ExpandError::Derived { item } ==> error@ == (ExpandErrorView::Derived {
            item: item as int,
        }),
        error matches ExpandError::Collision { item, name, variant } ==> error@ == (
        ExpandErrorView::Collision { item: item as int, name: name@, variant: variant@ }),
        error matches ExpandError::NoReceiver { item } ==> error@ == (ExpandErrorView::NoReceiver {
            item: item as int,
        }),
        error matches ExpandError::NotSimple { item, arg } ==> error@ == (
        ExpandErrorView::NotSimple { item: item as int, arg: arg as int }),
        error matches ExpandError::ContextNotFirst { item, arg } ==> error@ == (
        ExpandErrorView::ContextNotFirst { item: item as int, arg: arg as int }),
        expanded matches Ok(expansion) ==> outcome(expanded) == Ok::<_, ExpandErrorView>(
            expansion@,
        ),
        expanded matches Err(e) ==> outcome(expanded) == Err::<ExpansionView, _>(e@),
{
}

} // verus!
