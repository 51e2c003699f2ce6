//! The expansion of an actor: the messages that call its methods, and the
//! methods of the handle that send them.
use crate::naming::{
    camel, check_derived, check_reserved, is_derived, is_reserved, is_text, plain, snake_to_camel,
    strip_raw,
};
use crate::shape::{
    member, read_shape, shape_of, ActorShape, ActorView, ArgKind, Member, MemberView, MessageShape,
    MessageView,
};
use crate::syntax::{can_be_read, is_block_text, read_block, read_source, BlockText};
use syn::ItemImpl;
use vstd::prelude::*;

verus! {

/// Why an actor has no expansion. Items and arguments are given by their
/// place.
#[derive(Debug)]
pub enum ExpandError {
    /// The text is not that of an `impl` block.
    Syntax,
    /// The type of the actor is not a path.
    NotAPath,
    /// Each handle has a method of that name.
    Reserved { item: usize, name: String },
    /// The name ends as those that are made of the names of methods.
    Derived { item: usize },
    /// Another method has a message of that name.
    Collision { item: usize, name: String, variant: String },
    /// The method does not take `self` first.
    NoReceiver { item: usize },
    /// The argument is not a plain name.
    NotSimple { item: usize, arg: usize },
    /// The context comes behind another argument.
    ContextNotFirst { item: usize, arg: usize },
}

pub enum ExpandErrorView {
    Syntax,
    NotAPath,
    Reserved { item: int, name: Seq<char> },
    Derived { item: int },
    Collision { item: int, name: Seq<char>, variant: Seq<char> },
    NoReceiver { item: int },
    NotSimple { item: int, arg: int },
    ContextNotFirst { item: int, arg: int },
}

impl View for ExpandError {
    type V = ExpandErrorView;

    open spec fn view(&self) -> ExpandErrorView {
        match self {
            ExpandError::Syntax => ExpandErrorView::Syntax,
            ExpandError::NotAPath => ExpandErrorView::NotAPath,
            ExpandError::Reserved { item, name } => ExpandErrorView::Reserved {
                item: *item as int,
                name: name@,
            },
            ExpandError::Derived { item } => ExpandErrorView::Derived { item: *item as int },
            ExpandError::Collision { item, name, variant } => ExpandErrorView::Collision {
                item: *item as int,
                name: name@,
                variant: variant@,
            },
            ExpandError::NoReceiver { item } => ExpandErrorView::NoReceiver { item: *item as int },
            ExpandError::NotSimple { item, arg } => ExpandErrorView::NotSimple {
                item: *item as int,
                arg: *arg as int,
            },
            ExpandError::ContextNotFirst { item, arg } => ExpandErrorView::ContextNotFirst {
                item: *item as int,
                arg: *arg as int,
            },
        }
    }
}

impl ExpandErrorView {
    /// The text of the error.
    pub open spec fn text(self) -> Seq<char> {
        match self {
            ExpandErrorView::Syntax => "expected an impl block"@,
            ExpandErrorView::NotAPath => "Actor must be a simple type path"@,
            ExpandErrorView::Reserved { name, .. } => "'"@ + name
                + "' is reserved by axactor ref API; choose a different #[msg] name"@,
            ExpandErrorView::Derived { .. } =>
                "message method name must not end with _wait/_timeout/_wait_timeout (reserved by generated APIs)"@,
            ExpandErrorView::Collision { name, variant, .. } =>
                "Variant name collision detected: '"@ + name
                + "' maps to already existing variant '"@ + variant + "'"@,
            ExpandErrorView::NoReceiver { .. } =>
                "Actor method must take &mut self as the first argument"@,
            ExpandErrorView::NotSimple { .. } =>
                "actor #[msg] args must be simple identifiers (e.g. x: T)"@,
            ExpandErrorView::ContextNotFirst { .. } =>
                "Context must be the first argument after &mut self"@,
        }
    }
}

impl ExpandError {
    /// The text of the error.
    pub fn message(&self) -> (message: String)
        ensures
            message@ == self@.text(),
    {
        match self {
            ExpandError::Syntax => "expected an impl block".to_owned(),
            ExpandError::NotAPath => "Actor must be a simple type path".to_owned(),
            ExpandError::Reserved { name, .. } => {
                let mut message = "'".to_owned();
                message.append(name.as_str());
                message.append("' is reserved by axactor ref API; choose a different #[msg] name");
                message
            },
            ExpandError::Derived { .. } =>
                "message method name must not end with _wait/_timeout/_wait_timeout (reserved by generated APIs)".to_owned(),
            ExpandError::Collision { name, variant, .. } => {
                let mut message = "Variant name collision detected: '".to_owned();
                message.append(name.as_str());
                message.append("' maps to already existing variant '");
                message.append(variant.as_str());
                message.append("'");
                message
            },
            ExpandError::NoReceiver { .. } =>
                "Actor method must take &mut self as the first argument".to_owned(),
            ExpandError::NotSimple { .. } =>
                "actor #[msg] args must be simple identifiers (e.g. x: T)".to_owned(),
            ExpandError::ContextNotFirst { .. } =>
                "Context must be the first argument after &mut self".to_owned(),
        }
    }
}

/// How a method of the handle sends its message.
#[derive(Debug, Clone, Copy, PartialEq, Eq, Structural)]
pub enum SendMode {
    /// Sends if there is room now.
    Tell,
    /// Waits for room.
    TellWait,
    /// Sends if there is room now, and waits for the answer.
    Ask,
    /// Waits for room, and then for the answer.
    AskWait,
    /// Waits for both, but for no longer than a given time.
    AskWaitTimeout,
    /// Sends if there is room now, and waits for the answer for no longer
    /// than a given time.
    AskTimeout,
}

/// A method of the handle.
#[derive(Debug)]
pub struct RefMethod {
    pub name: String,
    pub mode: SendMode,
}

pub struct RefMethodView {
    pub name: Seq<char>,
    pub mode: SendMode,
}

impl View for RefMethod {
    type V = RefMethodView;

    open spec fn view(&self) -> RefMethodView {
        RefMethodView { name: self.name@, mode: self.mode }
    }
}

/// A message and the methods of the handle that send it.
#[derive(Debug)]
pub struct MessagePlan {
    /// The place of the method among the items of the block.
    pub item: usize,
    pub method: String,
    /// The name of the message.
    pub variant: String,
    /// What the message tells of its kind.
    pub kind: String,
    /// The method takes the context.
    pub with_context: bool,
    /// The places of the arguments that go into the message.
    pub fields: Vec<usize>,
    pub is_async: bool,
    pub replies: bool,
    pub ref_methods: Vec<RefMethod>,
}

pub struct MessagePlanView {
    pub item: int,
    pub method: Seq<char>,
    pub variant: Seq<char>,
    pub kind: Seq<char>,
    pub with_context: bool,
    pub fields: Seq<int>,
    pub is_async: bool,
    pub replies: bool,
    pub ref_methods: Seq<RefMethodView>,
}

impl View for MessagePlan {
    type V = MessagePlanView;

    open spec fn view(&self) -> MessagePlanView {
        MessagePlanView {
            item: self.item as int,
            method: self.method@,
            variant: self.variant@,
            kind: self.kind@,
            with_context: self.with_context,
            fields: self.fields@.map_values(|i: usize| i as int),
            is_async: self.is_async,
            replies: self.replies,
            ref_methods: self.ref_methods@.map_values(|m: RefMethod| m@),
        }
    }
}

/// The views of some plans.
pub open spec fn plans(messages: Seq<MessagePlan>) -> Seq<MessagePlanView> {
    messages.map_values(|m: MessagePlan| m@)
}

/// What an actor expands to.
#[derive(Debug)]
pub struct Expansion {
    /// The name of the type of its messages.
    pub msg_enum: String,
    /// The name of the type of its handle.
    pub ref_struct: String,
    /// What the message that stops the actor tells of its kind.
    pub stop_kind: String,
    /// Which hooks the actor has.
    pub on_start: bool,
    pub on_restart: bool,
    pub on_stop: bool,
    pub messages: Vec<MessagePlan>,
}

pub struct ExpansionView {
    pub msg_enum: Seq<char>,
    pub ref_struct: Seq<char>,
    pub stop_kind: Seq<char>,
    pub on_start: bool,
    pub on_restart: bool,
    pub on_stop: bool,
    pub messages: Seq<MessagePlanView>,
}

impl View for Expansion {
    type V = ExpansionView;

    open spec fn view(&self) -> ExpansionView {
        ExpansionView {
            msg_enum: self.msg_enum@,
            ref_struct: self.ref_struct@,
            stop_kind: self.stop_kind@,
            on_start: self.on_start,
            on_restart: self.on_restart,
            on_stop: self.on_stop,
            messages: plans(self.messages@),
        }
    }
}

/// There is an argument behind `self`.
pub open spec fn has_typed(args: Seq<ArgKind>) -> bool {
    exists|i: int| 1 <= i < args.len() && #[trigger] args[i] !is Receiver
}

/// The first argument behind `self` that the expansion cannot take, if there
/// is one: it is no plain name, or it is a context that comes too late.
pub open spec fn args_error(item: int, args: Seq<ArgKind>) -> Option<ExpandErrorView>
    decreases args.len(),
{
    if args.len() <= 1 {
        None
    } else {
        let arg = args.len() - 1;
        match args_error(item, args.drop_last()) {
            Some(error) => Some(error),
            None => match args.last() {
                ArgKind::NotSimple => Some(ExpandErrorView::NotSimple { item, arg }),
                ArgKind::Context if has_typed(args.drop_last()) => Some(
                    ExpandErrorView::ContextNotFirst { item, arg },
                ),
                _ => None,
            },
        }
    }
}

/// The context is among the arguments.
pub open spec fn takes_context(args: Seq<ArgKind>) -> bool {
    exists|i: int| 1 <= i < args.len() && #[trigger] args[i] is Context
}

/// The places of the arguments that go into the message.
pub open spec fn field_places(args: Seq<ArgKind>) -> Seq<int>
    decreases args.len(),
{
    if args.len() <= 1 {
        Seq::empty()
    } else if args.last() is Field {
        field_places(args.drop_last()).push(args.len() - 1)
    } else {
        field_places(args.drop_last())
    }
}

/// The methods of the handle that send the message of a method.
pub open spec fn ref_methods(method: Seq<char>, replies: bool) -> Seq<RefMethodView> {
    if replies {
        seq![
            RefMethodView { name: method, mode: SendMode::Ask },
            RefMethodView { name: method + "_wait"@, mode: SendMode::AskWait },
            RefMethodView { name: method + "_wait_timeout"@, mode: SendMode::AskWaitTimeout },
            RefMethodView { name: method + "_timeout"@, mode: SendMode::AskTimeout },
        ]
    } else {
        seq![
            RefMethodView { name: method, mode: SendMode::Tell },
            RefMethodView { name: method + "_wait"@, mode: SendMode::TellWait },
        ]
    }
}

/// What a message tells of its kind.
pub open spec fn kind_text(msg_enum: Seq<char>, variant: Seq<char>) -> Seq<char> {
    msg_enum + "::"@ + variant
}

/// One of the messages has that name.
pub open spec fn has_variant(messages: Seq<MessagePlanView>, variant: Seq<char>) -> bool {
    exists|i: int| 0 <= i < messages.len() && #[trigger] messages[i].variant == variant
}

/// What is wrong with a method that messages are to call, if anything is,
/// after the methods that come before it.
pub open spec fn message_error(
    item: int,
    name: Seq<char>,
    message: MessageView,
    earlier: Seq<MessagePlanView>,
) -> Option<ExpandErrorView> {
    if is_reserved(name) {
        Some(ExpandErrorView::Reserved { item, name })
    } else if is_derived(name) {
        Some(ExpandErrorView::Derived { item })
    } else if has_variant(earlier, camel(name)) {
        Some(ExpandErrorView::Collision { item, name, variant: camel(name) })
    } else if message.args.len() == 0 || message.args[0] !is Receiver {
        Some(ExpandErrorView::NoReceiver { item })
    } else {
        args_error(item, message.args)
    }
}

/// The message of a method.
pub open spec fn message_plan(
    item: int,
    name: Seq<char>,
    message: MessageView,
    msg_enum: Seq<char>,
) -> MessagePlanView {
    MessagePlanView {
        item,
        method: name,
        variant: camel(name),
        kind: kind_text(msg_enum, camel(name)),
        with_context: takes_context(message.args),
        fields: field_places(message.args),
        is_async: message.is_async,
        replies: message.replies,
        ref_methods: ref_methods(name, message.replies),
    }
}

/// The messages of some items, or what is wrong with the first that cannot be
/// taken.
pub open spec fn messages_of(items: Seq<Option<MemberView>>, msg_enum: Seq<char>) -> Result<
    Seq<MessagePlanView>,
    ExpandErrorView,
>
    decreases items.len(),
{
    if items.len() == 0 {
        Ok(Seq::empty())
    } else {
        let item = items.len() - 1;
        match messages_of(items.drop_last(), msg_enum) {
            Err(error) => Err(error),
            Ok(earlier) => match items.last() {
                Some(MemberView { name, message: Some(message) }) => match message_error(
                    item,
                    name,
                    message,
                    earlier,
                ) {
                    Some(error) => Err(error),
                    None => Ok(earlier.push(message_plan(item, name, message, msg_enum))),
                },
                _ => Ok(earlier),
            },
        }
    }
}

/// One of the items is a method of that name.
pub open spec fn has_method(items: Seq<Option<MemberView>>, name: Seq<char>) -> bool {
    exists|i: int|
        0 <= i < items.len() && #[trigger] items[i] is Some && items[i]->0.name == name
}

/// What an actor expands to, or why it does not.
pub open spec fn expansion_of(actor: ActorView) -> Result<ExpansionView, ExpandErrorView> {
    match actor.name {
        Some(word) => {
            let name = plain(word);
            let msg_enum = name + "Msg"@;
            match messages_of(actor.items, msg_enum) {
                Ok(messages) => Ok(
                    ExpansionView {
                        msg_enum,
                        ref_struct: name + "Ref"@,
                        stop_kind: kind_text(msg_enum, "__Stop"@),
                        on_start: has_method(actor.items, "on_start"@),
                        on_restart: has_method(actor.items, "on_restart"@),
                        on_stop: has_method(actor.items, "on_stop"@),
                        messages,
                    },
                ),
                Err(error) => Err(error),
            }
        },
        None => Err(ExpandErrorView::NotAPath),
    }
}

/// The view of the outcome of an expansion.
pub open spec fn outcome(expanded: Result<Expansion, ExpandError>) -> Result<
    ExpansionView,
    ExpandErrorView,
> {
    match expanded {
        Ok(expansion) => Ok(expansion@),
        Err(error) => Err(error@),
    }
}

/// Puts two texts together.
fn joined(first: &str, second: &str) -> (both: String)
    ensures
        both@ == first@ + second@,
{
    let mut both = first.to_owned();
    both.append(second);
    both
}

/// What a message tells of its kind.
fn kind_of(msg_enum: &String, variant: &str) -> (kind: String)
    ensures
        kind@ == kind_text(msg_enum@, variant@),
{
    let mut kind = joined(msg_enum.as_str(), "::");
    kind.append(variant);
    kind
}

/// The arguments that go into a message, and whether the context is among
/// the others.
fn plan_args(item: usize, args: &Vec<ArgKind>) -> (planned: Result<(bool, Vec<usize>), ExpandError>)
    requires
        args@.len() > 0,
    ensures
        match planned {
            Ok((with_context, fields)) => {
                &&& args_error(item as int, args@) is None
                &&& with_context == takes_context(args@)
                &&& fields@.map_values(|i: usize| i as int) == field_places(args@)
            },
            Err(error) => args_error(item as int, args@) == Some(error@),
        },
{
    let mut with_context = false;
    let mut is_first_arg = true;
    let mut fields: Vec<usize> = Vec::new();
    let mut i: usize = 1;
    assert(fields@.map_values(|i: usize| i as int) =~= Seq::<int>::empty());
    while i < args.len()
        invariant
            1 <= i <= args@.len(),
            args_error(item as int, args@.take(i as int)) is None,
            with_context == takes_context(args@.take(i as int)),
            is_first_arg == !has_typed(args@.take(i as int)),
            fields@.map_values(|i: usize| i as int) == field_places(args@.take(i as int)),
        decreases args@.len() - i,
    {
        let ghost (now, was) = (args@.take(i + 1), args@.take(i as int));
        proof {
            assert(now.drop_last() =~= was);
            assert(now[i as int] == args@[i as int]);
            assert forall|j: int| 1 <= j < i implies now[j] == #[trigger] was[j] by {}
            lemma_error_stays(item as int, args@, i + 1);
        }
        match args[i] {
            ArgKind::Receiver => {},
            ArgKind::NotSimple => {
                return Err(ExpandError::NotSimple { item, arg: i });
            },
            ArgKind::Context => {
                if !is_first_arg {
                    return Err(ExpandError::ContextNotFirst { item, arg: i });
                }
                with_context = true;
                is_first_arg = false;
            },
            ArgKind::Field => {
                let ghost before = fields@;
                fields.push(i);
                is_first_arg = false;
                assert(fields@.map_values(|i: usize| i as int) =~= before.map_values(
                    |i: usize| i as int,
                ).push(i as int));
            },
        }
        proof {
            assert(takes_context(now) == (takes_context(was) || args@[i as int] is Context));
            assert(has_typed(now) == (has_typed(was) || args@[i as int] !is Receiver));
        }
        i = i + 1;
    }
    assert(args@.take(i as int) =~= args@);
    Ok((with_context, fields))
}

/// What is wrong with some of the arguments is wrong with all of them.
proof fn lemma_error_stays(item: int, args: Seq<ArgKind>, n: int)
    requires
        1 <= n <= args.len(),
    ensures
        args_error(item, args.take(n)) is Some ==> args_error(item, args) == args_error(
            item,
            args.take(n),
        ),
    decreases args.len(),
{
    if n < args.len() {
        lemma_error_stays(item, args.drop_last(), n);
        assert(args.drop_last().take(n) =~= args.take(n));
    } else {
        assert(args.take(n) =~= args);
    }
}

/// The methods of the handle that send the message of a method.
fn plan_ref_methods(method: &String, replies: bool) -> (methods: Vec<RefMethod>)
    ensures
        methods@.map_values(|m: RefMethod| m@) == ref_methods(method@, replies),
{
    let mut methods: Vec<RefMethod> = Vec::new();
    let name = method.as_str();
    if replies {
        methods.push(RefMethod { name: method.clone(), mode: SendMode::Ask });
        methods.push(RefMethod { name: joined(name, "_wait"), mode: SendMode::AskWait });
        methods.push(
            RefMethod { name: joined(name, "_wait_timeout"), mode: SendMode::AskWaitTimeout },
        );
        methods.push(RefMethod { name: joined(name, "_timeout"), mode: SendMode::AskTimeout });
    } else {
        methods.push(RefMethod { name: method.clone(), mode: SendMode::Tell });
        methods.push(RefMethod { name: joined(name, "_wait"), mode: SendMode::TellWait });
    }
    assert(methods@.map_values(|m: RefMethod| m@) =~= ref_methods(method@, replies));
    methods
}

/// Whether one of the messages has that name.
fn check_variant(messages: &Vec<MessagePlan>, variant: &String) -> (b: bool)
    ensures
        b == has_variant(plans(messages@), variant@),
{
    let mut i: usize = 0;
    while i < messages.len()
        invariant
            0 <= i <= messages@.len(),
            forall|j: int| 0 <= j < i ==> #[trigger] messages@[j].variant@ != variant@,
        decreases messages@.len() - i,
    {
        if messages[i].variant == *variant {
            assert(plans(messages@)[i as int].variant == variant@);
            return true;
        }
        i = i + 1;
    }
    assert forall|j: int| 0 <= j < messages@.len() implies #[trigger] plans(messages@)[j].variant
        != variant@ by {
        assert(messages@[j].variant@ != variant@);
    }
    false
}

/// Plans the message of a method, after the messages that come before it.
pub fn plan_message(
    item: usize,
    name: &String,
    message: &MessageShape,
    msg_enum: &String,
    earlier: &Vec<MessagePlan>,
) -> (planned: Result<MessagePlan, ExpandError>)
    ensures
        match planned {
            Ok(plan) => {
                &&& message_error(item as int, name@, message@, plans(earlier@)) is None
                &&& plan@ == message_plan(item as int, name@, message@, msg_enum@)
            },
            Err(error) => message_error(item as int, name@, message@, plans(earlier@)) == Some(
                error@,
            ),
        },
{
    if check_reserved(name) {
        return Err(ExpandError::Reserved { item, name: name.clone() });
    }
    if check_derived(name) {
        return Err(ExpandError::Derived { item });
    }
    let variant = snake_to_camel(name.as_str());
    if check_variant(earlier, &variant) {
        return Err(ExpandError::Collision { item, name: name.clone(), variant });
    }
    let takes_self = message.args.len() > 0 && matches!(message.args[0], ArgKind::Receiver);
    if !takes_self {
        return Err(ExpandError::NoReceiver { item });
    }
    match plan_args(item, &message.args) {
        Ok((with_context, fields)) => {
            let kind = kind_of(msg_enum, variant.as_str());
            Ok(
                MessagePlan {
                    item,
                    method: name.clone(),
                    variant,
                    kind,
                    with_context,
                    fields,
                    is_async: message.is_async,
                    replies: message.replies,
                    ref_methods: plan_ref_methods(name, message.replies),
                },
            )
        },
        Err(error) => Err(error),
    }
}

/// What is wrong with some of the items is wrong with all of them.
proof fn lemma_first_error_counts(items: Seq<Option<MemberView>>, msg_enum: Seq<char>, n: int)
    requires
        0 <= n <= items.len(),
    ensures
        messages_of(items.take(n), msg_enum) is Err ==> messages_of(items, msg_enum)
            == messages_of(items.take(n), msg_enum),
    decreases items.len(),
{
    if n < items.len() {
        lemma_first_error_counts(items.drop_last(), msg_enum, n);
        assert(items.drop_last().take(n) =~= items.take(n));
    } else {
        assert(items.take(n) =~= items);
    }
}

/// Whether one of the items is a method of that name.
fn check_method(items: &Vec<Option<Member>>, name: &str) -> (b: bool)
    ensures
        b == has_method(items@.map_values(|item: Option<Member>| member(item)), name@),
{
    let ghost views = items@.map_values(|item: Option<Member>| member(item));
    let mut i: usize = 0;
    while i < items.len()
        invariant
            0 <= i <= items@.len(),
            views == items@.map_values(|item: Option<Member>| member(item)),
            forall|j: int|
                0 <= j < i && #[trigger] views[j] is Some ==> views[j]->0.name != name@,
        decreases items@.len() - i,
    {
        assert(views[i as int] == member(items@[i as int]));
        if let Some(m) = &items[i] {
            if is_text(&m.name, name) {
                return true;
            }
        }
        i = i + 1;
    }
    false
}

/// Plans the expansion of an actor.
pub fn plan(actor: &ActorShape) -> (planned: Result<Expansion, ExpandError>)
    ensures
        outcome(planned) == expansion_of(actor@),
{
    let name = match &actor.name {
        Some(word) => strip_raw(word.as_str()),
        None => {
            return Err(ExpandError::NotAPath);
        },
    };
    let msg_enum = joined(name.as_str(), "Msg");
    let mut messages: Vec<MessagePlan> = Vec::new();
    let mut i: usize = 0;
    let ghost items = actor@.items;
    assert(items.take(0) =~= Seq::<Option<MemberView>>::empty());
    assert(plans(messages@) =~= Seq::<MessagePlanView>::empty());
    while i < actor.items.len()
        invariant
            0 <= i <= actor.items@.len(),
            items == actor@.items,
            actor@.name matches Some(word) && name@ == plain(word),
            msg_enum@ == name@ + "Msg"@,
            messages_of(items.take(i as int), msg_enum@) == Ok::<_, ExpandErrorView>(
                plans(messages@),
            ),
        decreases actor.items@.len() - i,
    {
        proof {
            assert(items.take(i + 1).drop_last() =~= items.take(i as int));
            assert(items[i as int] == member(actor.items@[i as int]));
            lemma_first_error_counts(items, msg_enum@, i + 1);
        }
        if let Some(Member { name: method, message: Some(message) }) = &actor.items[i] {
            match plan_message(i, method, message, &msg_enum, &messages) {
                Ok(planned) => {
                    let ghost before = messages@;
                    messages.push(planned);
                    assert(plans(messages@) =~= plans(before).push(planned@));
                },
                Err(error) => {
                    return Err(error);
                },
            }
        }
        i = i + 1;
    }
    assert(items.take(i as int) =~= items);
    let stop_kind = kind_of(&msg_enum, "__Stop");
    Ok(
        Expansion {
            msg_enum,
            ref_struct: joined(name.as_str(), "Ref"),
            stop_kind,
            on_start: check_method(&actor.items, "on_start"),
            on_restart: check_method(&actor.items, "on_restart"),
            on_stop: check_method(&actor.items, "on_stop"),
            messages,
        },
    )
}

/// Expands an actor's `impl` block.
pub fn actor_block(block: &ItemImpl) -> (expanded: Result<Expansion, ExpandError>)
    ensures
        exists|text: BlockText| #[trigger]
            is_block_text(*block, text) && outcome(expanded) == expansion_of(shape_of(text@)),
{
    let text = read_block(block);
    plan(&read_shape(&text))
}

/// Expands the source of an actor's `impl` block.
pub fn actor(source: &str) -> (expanded: Result<Expansion, ExpandError>)
    ensures
        exists|read: Result<BlockText, syn::Error>| #[trigger]
            can_be_read(source, read) && outcome(expanded) == (match read {
                Ok(text) => expansion_of(shape_of(text@)),
                Err(_) => Err(ExpandErrorView::Syntax),
            }),
{
    match read_source(source) {
        Ok(text) => plan(&read_shape(&text)),
        Err(_) => Err(ExpandError::Syntax),
    }
}

} // verus!
