//! An actor's `impl` block, as far as its expansion depends on it.
use crate::naming::is_text;
use crate::syntax::{
    arg_views, maybe_text, maybe_words, method, ArgText, ArgView, BlockText, BlockView, MethodText,
    MethodView, OutputText, PatText,
};
use vstd::prelude::*;

verus! {

/// The last word of a path.
pub open spec fn last_word(words: Option<Seq<Seq<char>>>) -> Option<Seq<char>> {
    match words {
        Some(w) if w.len() > 0 => Some(w.last()),
        _ => None,
    }
}

/// The last word of a path.
pub fn take_last_word(words: &Option<Vec<String>>) -> (word: Option<String>)
    ensures
        maybe_text(word) == last_word(maybe_words(*words)),
{
    match words {
        Some(w) => if w.len() > 0 {
            Some(w[w.len() - 1].clone())
        } else {
            None
        },
        None => None,
    }
}

/// A type that is a reference to that path is the type of a context: a context
/// is known by its last word.
pub open spec fn is_context(refers_to: Option<Seq<Seq<char>>>) -> bool {
    last_word(refers_to) == Some("Context"@)
}

/// Whether a type that is a reference to that path is the type of a context.
pub fn is_context_ty(refers_to: &Option<Vec<String>>) -> (b: bool)
    ensures
        b == is_context(maybe_words(*refers_to)),
{
    match take_last_word(refers_to) {
        Some(last) => is_text(&last, "Context"),
        None => false,
    }
}

/// What an argument is for the expansion.
#[derive(Debug, Clone, Copy, PartialEq, Eq, Structural)]
pub enum ArgKind {
    /// `self`, in one of its forms.
    Receiver,
    /// Something else than a plain name.
    NotSimple,
    /// The context.
    Context,
    /// What goes into the message.
    Field,
}

/// What an argument is.
pub open spec fn arg_kind(arg: ArgView) -> ArgKind {
    match arg {
        ArgView::Receiver => ArgKind::Receiver,
        ArgView::Typed { pat: Some(p), refers_to } if !p.by_ref && !p.has_subpat => if is_context(
            refers_to,
        ) {
            ArgKind::Context
        } else {
            ArgKind::Field
        },
        _ => ArgKind::NotSimple,
    }
}

/// What an argument is.
pub fn classify(arg: &ArgText) -> (kind: ArgKind)
    ensures
        kind == arg_kind(arg@),
{
    match arg {
        ArgText::Receiver => ArgKind::Receiver,
        ArgText::Typed { pat, refers_to } => match pat {
            Some(p) => if p.by_ref || p.has_subpat {
                ArgKind::NotSimple
            } else if is_context_ty(refers_to) {
                ArgKind::Context
            } else {
                ArgKind::Field
            },
            None => ArgKind::NotSimple,
        },
    }
}

/// What some arguments are.
pub open spec fn arg_kinds(args: Seq<ArgView>) -> Seq<ArgKind> {
    args.map_values(|arg: ArgView| arg_kind(arg))
}

/// What some arguments are.
pub fn classify_all(args: &Vec<ArgText>) -> (kinds: Vec<ArgKind>)
    ensures
        kinds@ == arg_kinds(arg_views(args@)),
{
    let mut kinds: Vec<ArgKind> = Vec::new();
    let mut i: usize = 0;
    while i < args.len()
        invariant
            0 <= i <= args@.len(),
            kinds@.len() == i,
            forall|j: int| 0 <= j < i ==> #[trigger] kinds@[j] == arg_kind(args@[j]@),
        decreases args@.len() - i,
    {
        kinds.push(classify(&args[i]));
        i = i + 1;
    }
    assert(kinds@ =~= arg_kinds(arg_views(args@)));
    kinds
}

/// A method has an answer, unless it names no type that it returns, or that of
/// nothing at all.
pub open spec fn has_reply(output: OutputText) -> bool {
    output !is Unnamed && output != OutputText::Tuple(0)
}

/// Whether a method with that output has an answer.
pub fn check_reply(output: OutputText) -> (b: bool)
    ensures
        b == has_reply(output),
{
    match output {
        OutputText::Unnamed => false,
        OutputText::Tuple(parts) => parts > 0,
        OutputText::Other => true,
    }
}

/// A method that is called by messages: what its arguments are, whether it is
/// asynchronous, and whether it has an answer.
#[derive(Debug)]
pub struct MessageShape {
    pub is_async: bool,
    pub args: Vec<ArgKind>,
    pub replies: bool,
}

pub struct MessageView {
    pub is_async: bool,
    pub args: Seq<ArgKind>,
    pub replies: bool,
}

impl View for MessageShape {
    type V = MessageView;

    open spec fn view(&self) -> MessageView {
        MessageView { is_async: self.is_async, args: self.args@, replies: self.replies }
    }
}

/// A method of an actor, and whether messages call it.
#[derive(Debug)]
pub struct Member {
    pub name: String,
    pub message: Option<MessageShape>,
}

pub struct MemberView {
    pub name: Seq<char>,
    pub message: Option<MessageView>,
}

impl View for Member {
    type V = MemberView;

    open spec fn view(&self) -> MemberView {
        MemberView {
            name: self.name@,
            message: match self.message {
                Some(m) => Some(m@),
                None => None,
            },
        }
    }
}

/// An actor, as far as the expansion reads it: its name, if its type has one,
/// and its items, of which those that are no methods are left blank.
#[derive(Debug)]
pub struct ActorShape {
    pub name: Option<String>,
    pub items: Vec<Option<Member>>,
}

pub struct ActorView {
    pub name: Option<Seq<char>>,
    pub items: Seq<Option<MemberView>>,
}

/// The view of an item that may be left blank.
pub open spec fn member(item: Option<Member>) -> Option<MemberView> {
    match item {
        Some(m) => Some(m@),
        None => None,
    }
}

impl View for ActorShape {
    type V = ActorView;

    open spec fn view(&self) -> ActorView {
        ActorView {
            name: maybe_text(self.name),
            items: self.items@.map_values(|item: Option<Member>| member(item)),
        }
    }
}

/// Whether an attribute marks a method as called by messages. That attribute
/// is for the expansion alone, and is taken off the method.
pub fn is_msg_attr(attr: &Option<String>) -> (b: bool)
    ensures
        b == (maybe_text(*attr) == Some("msg"@)),
{
    match attr {
        Some(word) => is_text(word, "msg"),
        None => false,
    }
}

/// One of the attributes marks the method as called by messages.
pub open spec fn has_msg(attrs: Seq<Option<Seq<char>>>) -> bool {
    attrs.contains(Some("msg"@))
}

/// Whether the method is marked as called by messages.
pub fn is_msg(method: &MethodText) -> (b: bool)
    ensures
        b == has_msg(method@.attrs),
{
    let attrs = &method.head.attrs;
    let mut i: usize = 0;
    while i < attrs.len()
        invariant
            *attrs == method.head.attrs,
            0 <= i <= attrs@.len(),
            forall|j: int| 0 <= j < i ==> #[trigger] method@.attrs[j] != Some("msg"@),
        decreases attrs@.len() - i,
    {
        assert(method@.attrs[i as int] == maybe_text(attrs@[i as int]));
        if is_msg_attr(&attrs[i]) {
            return true;
        }
        i = i + 1;
    }
    false
}

/// A method, as far as the expansion reads it: of one that no message calls
/// just the name.
pub open spec fn member_of(method: MethodView) -> MemberView {
    MemberView {
        name: method.name,
        message: if has_msg(method.attrs) {
            Some(
                MessageView {
                    is_async: method.is_async,
                    args: arg_kinds(method.args),
                    replies: has_reply(method.output),
                },
            )
        } else {
            None
        },
    }
}

/// Takes of a method what the expansion reads.
pub fn read_member(method: &MethodText) -> (read: Member)
    ensures
        read@ == member_of(method@),
{
    let name = method.head.name.clone();
    if !is_msg(method) {
        return Member { name, message: None };
    }
    let message = MessageShape {
        is_async: method.head.is_async,
        args: classify_all(&method.args),
        replies: check_reply(method.head.output),
    };
    Member { name, message: Some(message) }
}

/// A block, as far as the expansion reads it: nothing of what is no method.
pub open spec fn shape_of(block: BlockView) -> ActorView {
    ActorView {
        name: last_word(block.self_ty),
        items: block.items.map_values(
            |item: Option<MethodView>|
                match item {
                    Some(m) => Some(member_of(m)),
                    None => None,
                },
        ),
    }
}

/// Takes of a block what the expansion reads.
pub fn read_shape(block: &BlockText) -> (shape: ActorShape)
    ensures
        shape@ == shape_of(block@),
{
    let mut items: Vec<Option<Member>> = Vec::new();
    let mut i: usize = 0;
    while i < block.items.len()
        invariant
            0 <= i <= block.items@.len(),
            items@.len() == i,
            forall|j: int|
                0 <= j < i ==> member(#[trigger] items@[j]) == shape_of(block@).items[j],
        decreases block.items@.len() - i,
    {
        assert(block@.items[i as int] == method(block.items@[i as int]));
        match &block.items[i] {
            Some(m) => {
                items.push(Some(read_member(m)));
            },
            None => {
                items.push(None);
            },
        }
        i = i + 1;
    }
    let shape = ActorShape { name: take_last_word(&block.self_ty), items };
    assert(shape@.items =~= shape_of(block@).items);
    shape
}

/// The last word of a path is the one behind which there is none; where there is
/// no path there is no word.
pub proof fn law_last_word(words: Seq<Seq<char>>, last: Seq<char>)
    ensures
        last_word(Some(words.push(last))) == Some(last),
        last_word(Some(Seq::<Seq<char>>::empty())) == None::<Seq<char>>,
        last_word(None) == None::<Seq<char>>,
{
}

/// A reference to a path is to a context just where the last word of the path is
/// `Context`, whatever comes before it.
pub proof fn law_contexts(words: Seq<Seq<char>>, last: Seq<char>)
    ensures
        is_context(Some(words.push(last))) <==> last == "Context"@,
        !is_context(None),
        !is_context(Some(Seq::<Seq<char>>::empty())),
{
}

/// An argument is `self`, or a name, or it cannot be taken. A name that is bound
/// as it stands is the context or goes into the message, by its type alone.
pub proof fn law_arguments_are_told_apart(
    pat: Option<PatText>,
    refers_to: Option<Seq<Seq<char>>>,
)
    ensures
        arg_kind(ArgView::Receiver) is Receiver,
        ({
            let kind = arg_kind(ArgView::Typed { pat, refers_to });
            &&& pat is None ==> kind is NotSimple
            &&& pat matches Some(p) ==> (p.by_ref || p.has_subpat <==> kind is NotSimple)
            &&& pat matches Some(p) ==> !p.by_ref && !p.has_subpat ==> (is_context(refers_to)
                <==> kind is Context)
            &&& pat matches Some(p) ==> !p.by_ref && !p.has_subpat ==> (!is_context(refers_to)
                <==> kind is Field)
        }),
{
}

/// Each argument is read by itself, and none is left out.
pub proof fn law_each_argument_is_read(args: Seq<ArgView>, i: int)
    ensures
        arg_kinds(args).len() == args.len(),
        0 <= i < args.len() ==> arg_kinds(args)[i] == arg_kind(args[i]),
{
}

/// A method is called by messages just where one of its attributes is `msg`,
/// wherever it stands. Whether it is asynchronous, what its arguments are and
/// whether it has an answer is read then, each of the method itself.
pub proof fn law_marked_methods(method: MethodView)
    ensures
        member_of(method).name == method.name,
        member_of(method).message is Some <==> exists|i: int|
            0 <= i < method.attrs.len() && #[trigger] method.attrs[i] == Some("msg"@),
        member_of(method).message matches Some(message) ==> {
            &&& message.is_async == method.is_async
            &&& message.args == arg_kinds(method.args)
            &&& message.replies <==> method.output !is Unnamed && method.output
                != OutputText::Tuple(0)
        },
{
}

/// The items of a block are read each by itself, in their order: just the
/// methods, and the name is the last word of the type.
pub proof fn law_each_item_is_read(block: BlockView, i: int)
    ensures
        shape_of(block).items.len() == block.items.len(),
        shape_of(block).name == last_word(block.self_ty),
        0 <= i < block.items.len() ==> {
            &&& shape_of(block).items[i] is Some <==> block.items[i] is Some
            &&& block.items[i] matches Some(method) ==> shape_of(block).items[i] == Some(
                member_of(method),
            )
        },
{
}

/// A shape is shown as it is, item by item.
pub proof fn law_shape_is_shown_as_it_is(
    actor: ActorShape,
    one: Member,
    message: MessageShape,
    i: int,
)
    ensures
        actor@.name is Some <==> actor.name is Some,
        actor.name matches Some(name) ==> actor@.name == Some(name@),
        actor@.items.len() == actor.items@.len(),
        0 <= i < actor.items@.len() ==> match (actor@.items[i], actor.items@[i]) {
            (Some(shown), Some(m)) => shown == m@,
            (None, None) => true,
            _ => false,
        },
        one@.name == one.name@,
        one@.message is Some <==> one.message is Some,
        one.message matches Some(m) ==> one@.message == Some(m@),
        message@.is_async == message.is_async,
        message@.replies == message.replies,
        message@.args == message.args@,
{
}

} // verus!
