//! What the expansion of an actor reads of its source.
use syn::FnArg::{Receiver, Typed};
use syn::Pat::Ident;
use syn::Type::{Path, Reference, Tuple};
use syn::{ImplItem, ImplItemFn, ItemImpl, ReturnType};
use vstd::prelude::*;

verus! {

/// Why a text is not what it was read as.
#[verifier::external_type_specification]
#[verifier::external_body]
pub struct ExSynError(syn::Error);

/// An `impl` block that was read.
#[verifier::external_type_specification]
#[verifier::external_body]
pub struct ExItemImpl(syn::ItemImpl);

/// A method of such a block.
#[verifier::external_type_specification]
#[verifier::external_body]
pub struct ExImplItemFn(syn::ImplItemFn);

/// The view of a text that may be missing.
pub open spec fn maybe_text(string: Option<String>) -> Option<Seq<char>> {
    match string {
        Some(s) => Some(s@),
        None => None,
    }
}

/// The views of the words of a path that may be missing.
pub open spec fn maybe_words(words: Option<Vec<String>>) -> Option<Seq<Seq<char>>> {
    match words {
        Some(w) => Some(w@.map_values(|s: String| s@)),
        None => None,
    }
}

/// A name that an argument is bound to: whether it is taken by reference, and
/// whether there is a pattern behind it.
#[derive(Debug, Clone, Copy, PartialEq, Eq, Structural)]
pub struct PatText {
    pub by_ref: bool,
    pub has_subpat: bool,
}

/// An argument of a method: `self` in one of its forms, or a pattern with its
/// type. The pattern is given where it is that of a name; of the type, where
/// it is a reference to a path, the words of that path.
#[derive(Debug)]
pub enum ArgText {
    Receiver,
    Typed { pat: Option<PatText>, refers_to: Option<Vec<String>> },
}

pub enum ArgView {
    Receiver,
    Typed { pat: Option<PatText>, refers_to: Option<Seq<Seq<char>>> },
}

impl View for ArgText {
    type V = ArgView;

    open spec fn view(&self) -> ArgView {
        match self {
            ArgText::Receiver => ArgView::Receiver,
            ArgText::Typed { pat, refers_to } => ArgView::Typed {
                pat: *pat,
                refers_to: maybe_words(*refers_to),
            },
        }
    }
}

/// The views of some arguments.
pub open spec fn arg_views(args: Seq<ArgText>) -> Seq<ArgView> {
    args.map_values(|arg: ArgText| arg@)
}

/// What a method returns: it names no type, or a tuple of that many parts, or
/// something else.
#[derive(Debug, Clone, Copy, PartialEq, Eq, Structural)]
pub enum OutputText {
    Unnamed,
    Tuple(usize),
    Other,
}

/// The head of a method: its name, the names of its attributes as far as these
/// are single words, whether it is asynchronous, and what it returns.
#[derive(Debug)]
pub struct HeadText {
    pub name: String,
    pub attrs: Vec<Option<String>>,
    pub is_async: bool,
    pub output: OutputText,
}

/// A method: its head and its arguments.
#[derive(Debug)]
pub struct MethodText {
    pub head: HeadText,
    pub args: Vec<ArgText>,
}

pub struct MethodView {
    pub name: Seq<char>,
    pub attrs: Seq<Option<Seq<char>>>,
    pub is_async: bool,
    pub output: OutputText,
    pub args: Seq<ArgView>,
}

impl View for MethodText {
    type V = MethodView;

    open spec fn view(&self) -> MethodView {
        MethodView {
            name: self.head.name@,
            attrs: self.head.attrs@.map_values(|a: Option<String>| maybe_text(a)),
            is_async: self.head.is_async,
            output: self.head.output,
            args: arg_views(self.args@),
        }
    }
}

/// The view of an item that may be something else than a method.
pub open spec fn method(item: Option<MethodText>) -> Option<MethodView> {
    match item {
        Some(m) => Some(m@),
        None => None,
    }
}

/// An `impl` block: the words of the type that it is for, if that is a path,
/// and its items, as far as these are methods.
#[derive(Debug)]
pub struct BlockText {
    pub self_ty: Option<Vec<String>>,
    pub items: Vec<Option<MethodText>>,
}

pub struct BlockView {
    pub self_ty: Option<Seq<Seq<char>>>,
    pub items: Seq<Option<MethodView>>,
}

impl View for BlockText {
    type V = BlockView;

    open spec fn view(&self) -> BlockView {
        BlockView {
            self_ty: maybe_words(self.self_ty),
            items: self.items@.map_values(|item: Option<MethodText>| method(item)),
        }
    }
}

/// `syn::parse_str` for an `impl` block. What it makes of a text is up to the
/// lexer, which in a procedural macro is that of the compiler, so nothing is
/// claimed of it.
#[verifier::external_body]
fn parse_block(source: &str) -> Result<ItemImpl, syn::Error> {
    syn::parse_str::<ItemImpl>(source)
}

/// The words of `syn::ItemImpl::self_ty`, where that is a path. Nothing is
/// claimed of them.
#[verifier::external_body]
fn words_of(block: &ItemImpl) -> Option<Vec<String>> {
    match &*block.self_ty {
        Path(p) => Some(p.path.segments.iter().map(|s| s.ident.to_string()).collect()),
        _ => None,
    }
}

/// `syn::ItemImpl::items`, each as a method where it is one. Nothing is claimed
/// of them.
#[verifier::external_body]
fn methods_of(block: &ItemImpl) -> Vec<Option<&ImplItemFn>> {
    block.items.iter().map(|item| match item {
        ImplItem::Fn(f) => Some(f),
        _ => None,
    }).collect()
}

/// The attributes and parts of the signature of a `syn::ImplItemFn`. Nothing is
/// claimed of them.
#[verifier::external_body]
fn head_of(f: &ImplItemFn) -> HeadText {
    HeadText {
        name: f.sig.ident.to_string(),
        attrs: f.attrs.iter().map(|a| a.path().get_ident().map(|i| i.to_string())).collect(),
        is_async: f.sig.asyncness.is_some(),
        output: match &f.sig.output {
            ReturnType::Default => OutputText::Unnamed,
            ReturnType::Type(_, ty) => match &**ty {
                Tuple(t) => OutputText::Tuple(t.elems.len()),
                _ => OutputText::Other,
            },
        },
    }
}

/// The arguments of a `syn::ImplItemFn`. Nothing is claimed of them.
#[verifier::external_body]
fn args_of(f: &ImplItemFn) -> Vec<ArgText> {
    f.sig.inputs.iter().map(|arg| match arg {
        Receiver(_) => ArgText::Receiver,
        Typed(t) => ArgText::Typed {
            pat: match &*t.pat {
                Ident(p) => Some(PatText { by_ref: p.by_ref.is_some(), has_subpat: p.subpat.is_some() }),
                _ => None,
            },
            refers_to: match &*t.ty {
                Reference(r) => match &*r.elem {
                    Path(p) => Some(p.path.segments.iter().map(|s| s.ident.to_string()).collect()),
                    _ => None },
                _ => None }}}).collect()
}

/// `text` is what was taken out of the method.
pub closed spec fn is_method_text(f: ImplItemFn, text: MethodText) -> bool {
    &&& call_ensures(head_of, (&f,), text.head)
    &&& call_ensures(args_of, (&f,), text.args)
}

/// `texts` are what was taken out of the items: of each method what was taken out
/// of it, and nothing of the others.
pub closed spec fn are_items_texts(
    items: Seq<Option<&ImplItemFn>>,
    texts: Seq<Option<MethodText>>,
) -> bool {
    &&& items.len() == texts.len()
    &&& forall|i: int|
        0 <= i < items.len() ==> match (items[i], #[trigger] texts[i]) {
            (Some(f), Some(text)) => is_method_text(*f, text),
            (None, None) => true,
            _ => false,
        }
}

/// `text` is what was taken out of the block.
pub closed spec fn is_block_text(block: ItemImpl, text: BlockText) -> bool {
    &&& call_ensures(words_of, (&block,), text.self_ty)
    &&& exists|items: Vec<Option<&ImplItemFn>>| #[trigger]
        call_ensures(methods_of, (&block,), items) && are_items_texts(items@, text.items@)
}

/// `read` is what can be read of a text: what is taken out of the block that
/// the text is, if it is one.
pub closed spec fn can_be_read(source: &str, read: Result<BlockText, syn::Error>) -> bool {
    exists|parsed: Result<ItemImpl, syn::Error>| #[trigger]
        call_ensures(parse_block, (source,), parsed) && match (parsed, read) {
            (Ok(block), Ok(text)) => is_block_text(block, text),
            (Err(why), Err(error)) => why == error,
            _ => false,
        }
}

/// Takes out of a block what the expansion reads of it.
pub fn read_block(block: &ItemImpl) -> (text: BlockText)
    ensures
        is_block_text(*block, text),
{
    let methods = methods_of(block);
    let mut items: Vec<Option<MethodText>> = Vec::new();
    let mut i: usize = 0;
    while i < methods.len()
        invariant
            0 <= i <= methods@.len(),
            items@.len() == i,
            forall|j: int|
                0 <= j < i ==> match (methods@[j], #[trigger] items@[j]) {
                    (Some(f), Some(text)) => is_method_text(*f, text),
                    (None, None) => true,
                    _ => false,
                },
        decreases methods@.len() - i,
    {
        match methods[i] {
            Some(f) => {
                let text = MethodText { head: head_of(f), args: args_of(f) };
                items.push(Some(text));
            },
            None => {
                items.push(None);
            },
        }
        i = i + 1;
    }
    assert(are_items_texts(methods@, items@));
    BlockText { self_ty: words_of(block), items }
}

/// Reads a text as an `impl` block.
pub fn read_source(source: &str) -> (read: Result<BlockText, syn::Error>)
    ensures
        can_be_read(source, read),
{
    let parsed = parse_block(source);
    let ghost what = parsed;
    assert(call_ensures(parse_block, (source,), what));
    match parsed {
        Ok(block) => Ok(read_block(&block)),
        Err(error) => Err(error),
    }
}

/// What is taken out of a block is what its parts gave: the words of its type,
/// and of each method, at its place, the head and the arguments.
proof fn law_nothing_is_made_up(block: ItemImpl, text: BlockText)
    requires
        is_block_text(block, text),
    ensures
        call_ensures(words_of, (&block,), text.self_ty),
        exists|items: Vec<Option<&ImplItemFn>>| #[trigger]
            call_ensures(methods_of, (&block,), items) && items@.len() == text.items@.len()
                && forall|i: int|
                0 <= i < items@.len() ==> {
                    &&& items@[i] is Some <==> (#[trigger] text.items@[i]) is Some
                    &&& text.items@[i] matches Some(method) ==> {
                        &&& call_ensures(head_of, (&*items@[i]->0,), method.head)
                        &&& call_ensures(args_of, (&*items@[i]->0,), method.args)
                    }
                },
{
    let items = choose|items: Vec<Option<&ImplItemFn>>| #[trigger]
        call_ensures(methods_of, (&block,), items) && are_items_texts(items@, text.items@);
    assert forall|i: int| 0 <= i < items@.len() implies {
        &&& items@[i] is Some <==> (#[trigger] text.items@[i]) is Some
        &&& text.items@[i] matches Some(method) ==> {
            &&& call_ensures(head_of, (&*items@[i]->0,), method.head)
            &&& call_ensures(args_of, (&*items@[i]->0,), method.args)
        }
    } by {
        if let Some(method) = text.items@[i] {
            assert(is_method_text(*items@[i]->0, method));
        }
    }
    assert(call_ensures(methods_of, (&block,), items));
}

/// A text is read as a block just where it was parsed as one, and then it is
/// that block that is read; otherwise the error is that of the parser.
proof fn law_what_was_parsed_is_read(source: &str, read: Result<BlockText, syn::Error>)
    requires
        can_be_read(source, read),
    ensures
        exists|parsed: Result<ItemImpl, syn::Error>| #[trigger]
            call_ensures(parse_block, (source,), parsed) && (parsed is Ok <==> read is Ok) && (
            parsed is Ok ==> is_block_text(parsed->Ok_0, read->Ok_0)) && (parsed is Err
                ==> parsed->Err_0 == read->Err_0),
{
}

/// A text is shown as it is: each part of a block, of a method and of an argument
/// by itself, and all of them.
pub proof fn law_source_is_shown_as_it_is(block: BlockText, method: MethodText, arg: ArgText, i: int)
    ensures
        block@.self_ty is Some <==> block.self_ty is Some,
        block.self_ty matches Some(words) ==> {
            &&& block@.self_ty->0.len() == words@.len()
            &&& 0 <= i < words@.len() ==> block@.self_ty->0[i] == words@[i]@
        },
        block@.items.len() == block.items@.len(),
        0 <= i < block.items@.len() ==> match (block@.items[i], block.items@[i]) {
            (Some(shown), Some(m)) => shown == m@,
            (None, None) => true,
            _ => false,
        },
        method@.name == method.head.name@,
        method@.is_async == method.head.is_async,
        method@.output == method.head.output,
        method@.attrs.len() == method.head.attrs@.len(),
        0 <= i < method.head.attrs@.len() ==> match (method@.attrs[i], method.head.attrs@[i]) {
            (Some(shown), Some(word)) => shown == word@,
            (None, None) => true,
            _ => false,
        },
        method@.args.len() == method.args@.len(),
        0 <= i < method.args@.len() ==> method@.args[i] == method.args@[i]@,
        arg is Receiver <==> arg@ is Receiver,
        arg matches ArgText::Typed { pat, refers_to } ==> {
            &&& arg@ matches ArgView::Typed { pat: shown, refers_to: words }
            &&& shown == pat
            &&& words is Some <==> refers_to is Some
            &&& refers_to matches Some(path) ==> words->0.len() == path@.len()
            &&& refers_to matches Some(path) ==> 0 <= i < path@.len() ==> words->0[i] == path@[i]@
        },
{
}

} // verus!
