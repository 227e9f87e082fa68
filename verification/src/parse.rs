//! Reading a union declaration: annotations, among them the directives that
//! name the interfaces to implement, then a visibility, the union's name and,
//! between braces, the variants with commas between them.
//!
//! The grammar is cut on tokens here. What an annotation, a visibility, a
//! name or a path is, the outside parsers say: each part is written out as
//! text, handed to its parser, and what comes back is put together.

use crate::declaration::{TypePath, TypePathView, TypeWrapInput, TypeWrapInputView, VariantPath, VariantPathView};
use crate::generate::{extracted_arms, lemma_first_true_none, unresolvable};
use crate::text::lemma_deep_view_push;
use crate::tokens::{copy_tokens, lex, render, rendered, Delimiter, Token, TokenView};
use quote::ToTokens;
use vstd::prelude::*;
use vstd::string::StringExecFns;

verus! {

/// The list of an annotation of the form `name(...)`.
#[derive(Clone, Debug, PartialEq, Eq)]
pub struct ListMeta {
    /// The name in front of the list, where it is a single identifier.
    pub name: Option<String>,
    /// What stands between the brackets, as token text.
    pub tokens: String,
}

/// The view of `ListMeta` that contracts speak of: every text as its sequence of
/// characters.
pub struct ListMetaView {
    pub name: Option<Seq<char>>,
    pub tokens: Seq<char>,
}

impl DeepView for ListMeta {
    type V = ListMetaView;

    open spec fn deep_view(&self) -> ListMetaView {
        ListMetaView { name: self.name.deep_view(), tokens: self.tokens@ }
    }
}

/// An annotation: its token text and, where it is a list, the list.
#[derive(Clone, Debug, PartialEq, Eq)]
pub struct Annotation {
    pub text: String,
    pub list: Option<ListMeta>,
}

/// The view of `Annotation` that contracts speak of: every text as its sequence of
/// characters.
pub struct AnnotationView {
    pub text: Seq<char>,
    pub list: Option<ListMetaView>,
}

impl DeepView for Annotation {
    type V = AnnotationView;

    open spec fn deep_view(&self) -> AnnotationView {
        AnnotationView { text: self.text@, list: self.list.deep_view() }
    }
}

/// Calls `syn::Attribute::parse_outer` on the whole text, which gives `None`
/// here where it reports an error. Nothing is claimed of what the parser
/// makes of a text. The text of an attribute is what `to_token_stream` prints
/// of it; where its `meta` is a list, the list's name is its path's
/// `get_ident` and its tokens are what `to_string` prints of `tokens`.
#[verifier::external_body]
pub(crate) fn parse_attributes(text: &str) -> (annotations: Option<Vec<Annotation>>) {
    let attrs = syn::parse::Parser::parse_str(syn::Attribute::parse_outer, text).ok()?;
    Some(attrs.iter().map(|attr| Annotation {
        text: attr.to_token_stream().to_string(),
        list: match &attr.meta {
            syn::Meta::List(list) => Some(ListMeta {
                name: list.path.get_ident().map(|ident| ident.to_string()),
                tokens: list.tokens.to_string(),
            }),
            syn::Meta::Path(_) => None,
            syn::Meta::NameValue(_) => None,
        },
    }).collect())
}

/// Calls `syn::parse_str::<syn::Visibility>`, which gives `None` here where
/// it reports an error. Nothing is claimed of what the parser makes of a
/// text. The result is what `to_token_stream` prints of the visibility.
#[verifier::external_body]
pub(crate) fn parse_visibility(text: &str) -> (vis: Option<String>) {
    let vis = syn::parse_str::<syn::Visibility>(text).ok()?;
    Some(vis.to_token_stream().to_string())
}

/// Calls `syn::parse_str::<syn::Ident>`, which gives `None` here where it
/// reports an error. Nothing is claimed of what the parser makes of a text.
/// The result is what `to_string` prints of the identifier.
#[verifier::external_body]
pub(crate) fn parse_ident(text: &str) -> (ident: Option<String>) {
    let ident = syn::parse_str::<syn::Ident>(text).ok()?;
    Some(ident.to_string())
}

/// Calls `syn::parse_str::<syn::Path>`, which gives `None` here where it
/// reports an error. Nothing is claimed of which texts the parser reads as a
/// path, only that a path which it read has a segment: it reads one before
/// it looks for more. The path keeps what `to_token_stream` prints of it
/// and, of each of its `segments` in order, what `to_token_stream` prints of
/// the segment.
#[verifier::external_body]
pub(crate) fn parse_type_path(text: &str) -> (path: Option<TypePath>)
    ensures
        path matches Some(read) ==> read.deep_view().resolvable(),
{
    let path = syn::parse_str::<syn::Path>(text).ok()?;
    Some(TypePath {
        text: path.to_token_stream().to_string(),
        segments: path.segments.iter().map(|segment| segment.to_token_stream().to_string()).collect(),
    })
}

/// Whether the tokens start with an annotation: a `#` and a bracketed group.
pub open spec fn starts_with_annotation(tokens: Seq<TokenView>) -> bool {
    &&& tokens.len() >= 2
    &&& tokens[0].is_punct('#')
    &&& tokens[1] matches TokenView::Group { delimiter, .. } && delimiter == Delimiter::Bracket
}

/// The number of tokens in the run of annotations that the tokens start
/// with.
pub open spec fn annotation_run(tokens: Seq<TokenView>) -> int
    decreases tokens.len(),
{
    if starts_with_annotation(tokens) {
        2 + annotation_run(tokens.skip(2))
    } else {
        0
    }
}

/// The number of tokens before the first comma that stands outside every
/// pair of angle brackets, `depth` of which are open at the start. An arrow
/// `->` closes none.
pub open spec fn entry_length(tokens: Seq<TokenView>, depth: nat) -> int
    decreases tokens.len(),
{
    if tokens.len() == 0 {
        0
    } else if depth == 0 && tokens[0].is_punct(',') {
        0
    } else if tokens.len() >= 2 && tokens[0].is_punct('-') && tokens[0].glued()
        && tokens[1].is_punct('>') {
        2 + entry_length(tokens.skip(2), depth)
    } else if tokens[0].is_punct('<') {
        1 + entry_length(tokens.skip(1), depth + 1)
    } else if tokens[0].is_punct('>') && depth > 0 {
        1 + entry_length(tokens.skip(1), (depth - 1) as nat)
    } else {
        1 + entry_length(tokens.skip(1), depth)
    }
}

/// The entries of a list: the runs of tokens between the commas that stand
/// outside angle brackets. A comma after the last entry adds none.
pub open spec fn entries(tokens: Seq<TokenView>) -> Seq<Seq<TokenView>>
    decreases tokens.len(),
    via entries_shorten
{
    if tokens.len() == 0 {
        Seq::empty()
    } else {
        let length = entry_length(tokens, 0);
        if length < tokens.len() {
            seq![tokens.take(length)] + entries(tokens.skip(length + 1))
        } else {
            seq![tokens]
        }
    }
}

#[via_fn]
proof fn entries_shorten(tokens: Seq<TokenView>) {
    entry_ends_at_a_comma(tokens, 0);
}

/// An entry ends within the tokens, and where tokens follow it, the first of
/// them is a comma.
pub proof fn entry_ends_at_a_comma(tokens: Seq<TokenView>, depth: nat)
    ensures
        0 <= entry_length(tokens, depth) <= tokens.len(),
        entry_length(tokens, depth) < tokens.len() ==> tokens[entry_length(tokens, depth)].is_punct(
            ',',
        ),
    decreases tokens.len(),
{
    if tokens.len() == 0 {
    } else if depth == 0 && tokens[0].is_punct(',') {
    } else if tokens.len() >= 2 && tokens[0].is_punct('-') && tokens[0].glued()
        && tokens[1].is_punct('>') {
        entry_ends_at_a_comma(tokens.skip(2), depth);
    } else if tokens[0].is_punct('<') {
        entry_ends_at_a_comma(tokens.skip(1), depth + 1);
    } else if tokens[0].is_punct('>') && depth > 0 {
        entry_ends_at_a_comma(tokens.skip(1), (depth - 1) as nat);
    } else {
        entry_ends_at_a_comma(tokens.skip(1), depth);
    }
}

/// Counts the tokens of the run of annotations at the start of the first
/// `limit` tokens.
pub fn count_annotation_run(tokens: &Vec<Token>, limit: usize) -> (count: usize)
    requires
        limit <= tokens.len(),
    ensures
        count == annotation_run(tokens.deep_view().take(limit as int)),
        count <= limit,
{
    let ghost head = tokens.deep_view().take(limit as int);
    let mut i: usize = 0;
    assert(head.skip(0) =~= head);
    loop
        invariant
            i <= limit <= tokens.len(),
            head == tokens.deep_view().take(limit as int),
            annotation_run(head) == i + annotation_run(head.skip(i as int)),
        ensures
            i <= limit,
            annotation_run(head) == i,
        decreases limit - i,
    {
        let ghost rest = head.skip(i as int);
        if limit - i < 2 {
            break ;
        }
        if !tokens[i].is_punct('#') {
            break ;
        }
        match &tokens[i + 1] {
            Token::Group { delimiter: Delimiter::Bracket, .. } => {},
            _ => {
                break ;
            },
        }
        assert(rest.skip(2) =~= head.skip(i + 2));
        i += 2;
    }
    i
}

/// Counts the tokens of the entry that starts at position `from`.
pub fn count_entry(tokens: &Vec<Token>, from: usize) -> (count: usize)
    requires
        from <= tokens.len(),
    ensures
        count == entry_length(tokens.deep_view().skip(from as int), 0),
        from + count <= tokens.len(),
{
    let ghost all = tokens.deep_view();
    let ghost entry = all.skip(from as int);
    let mut i: usize = from;
    let mut depth: usize = 0;
    loop
        invariant
            from <= i <= tokens.len(),
            depth <= i - from,
            all == tokens.deep_view(),
            entry == all.skip(from as int),
            entry_length(entry, 0) == (i - from) + entry_length(all.skip(i as int), depth as nat),
        ensures
            from <= i <= tokens.len(),
            entry_length(entry, 0) == i - from,
        decreases tokens.len() - i,
    {
        let ghost rest = all.skip(i as int);
        if i == tokens.len() {
            break ;
        }
        if depth == 0 && tokens[i].is_punct(',') {
            break ;
        }
        let arrow = match &tokens[i] {
            Token::Punct { ch, joint } => *ch == '-' && *joint && tokens.len() - i >= 2 && tokens[i
                + 1].is_punct('>'),
            _ => false,
        };
        if arrow {
            assert(rest.skip(2) =~= all.skip(i + 2));
            i += 2;
        } else {
            assert(rest.skip(1) =~= all.skip(i + 1));
            if tokens[i].is_punct('<') {
                depth += 1;
            } else if tokens[i].is_punct('>') && depth > 0 {
                depth -= 1;
            }
            i += 1;
        }
    }
    i - from
}

/// Cuts a list into its entries.
pub fn split_entries(tokens: &Vec<Token>) -> (list: Vec<Vec<Token>>)
    ensures
        list.deep_view() == entries(tokens.deep_view()),
{
    let ghost all = tokens.deep_view();
    let mut list: Vec<Vec<Token>> = Vec::new();
    let mut from: usize = 0;
    assert(all.skip(0) =~= all);
    while from < tokens.len()
        invariant
            from <= tokens.len(),
            all == tokens.deep_view(),
            entries(all) == list.deep_view() + entries(all.skip(from as int)),
        decreases tokens.len() - from,
    {
        let ghost rest = all.skip(from as int);
        let count: usize = count_entry(tokens, from);
        let entry = copy_tokens(tokens, from, from + count);
        assert(entry.deep_view() =~= rest.take(count as int));
        list.push(entry);
        if count < tokens.len() - from {
            assert(rest.skip(count + 1) =~= all.skip(from + count + 1));
            from = from + count + 1;
        } else {
            from = tokens.len();
        }
    }
    list
}

/// Why a text is no union declaration.
#[derive(Clone, Copy, Debug, PartialEq, Eq, Structural)]
pub enum ParseError {
    /// The text is no sequence of tokens.
    Tokens,
    /// The text does not end with a name and a braced list of variants.
    Shape,
    /// The annotations in front are malformed.
    Annotations,
    /// A directive does not hold a list of paths.
    Directive,
    /// What stands between the annotations and the name is no visibility.
    Visibility,
    /// The name is no identifier.
    Name,
    /// An entry between the braces is no type reference with annotations in
    /// front.
    Variants,
}

impl ParseError {
    /// What to report the failure with.
    pub open spec fn message_text(self) -> Seq<char> {
        match self {
            ParseError::Tokens => "expected a sequence of tokens"@,
            ParseError::Shape => "expected a name and a braced list of variants"@,
            ParseError::Annotations => "malformed annotation"@,
            ParseError::Directive => "expected a list of paths in `auto_impl`"@,
            ParseError::Visibility => "expected a visibility in front of the name"@,
            ParseError::Name => "expected an identifier as the name"@,
            ParseError::Variants => "expected a list of type references between the braces"@,
        }
    }

    /// What to report the failure with.
    pub fn message(&self) -> (text: String)
        ensures
            text@ == self.message_text(),
    {
        match self {
            ParseError::Tokens => String::from_str("expected a sequence of tokens"),
            ParseError::Shape => String::from_str("expected a name and a braced list of variants"),
            ParseError::Annotations => String::from_str("malformed annotation"),
            ParseError::Directive => String::from_str("expected a list of paths in `auto_impl`"),
            ParseError::Visibility => String::from_str(
                "expected a visibility in front of the name",
            ),
            ParseError::Name => String::from_str("expected an identifier as the name"),
            ParseError::Variants => String::from_str(
                "expected a list of type references between the braces",
            ),
        }
    }
}

/// The texts of the annotations, in order.
pub open spec fn annotation_texts(annotations: Seq<AnnotationView>) -> Seq<Seq<char>> {
    Seq::new(annotations.len(), |i: int| annotations[i].text)
}

/// The parts of a declaration, each written out as the text that is handed
/// to its parser.
#[derive(Clone, Debug, PartialEq, Eq)]
pub struct Outline {
    /// The run of annotations in front.
    pub annotations: String,
    /// What stands between the annotations and the name.
    pub visibility: String,
    /// The identifier in front of the braces.
    pub name: String,
    /// What stands between the braces.
    pub body: String,
}

/// The view of `Outline` that contracts speak of: every text as its sequence of
/// characters.
pub struct OutlineView {
    pub annotations: Seq<char>,
    pub visibility: Seq<char>,
    pub name: Seq<char>,
    pub body: Seq<char>,
}

impl DeepView for Outline {
    type V = OutlineView;

    open spec fn deep_view(&self) -> OutlineView {
        OutlineView {
            annotations: self.annotations@,
            visibility: self.visibility@,
            name: self.name@,
            body: self.body@,
        }
    }
}

/// Whether the tokens have the shape of a declaration: the last token is a
/// braced group and the one before it an identifier.
pub open spec fn well_shaped(tokens: Seq<TokenView>) -> bool {
    &&& tokens.len() >= 2
    &&& tokens[tokens.len() - 2] is Ident
    &&& tokens[tokens.len() - 1] matches TokenView::Group { delimiter, .. } && delimiter
        == Delimiter::Brace
}

/// The parts of a declaration of that shape. In front of the name stand the
/// annotations, as far as the run of them goes, and after them the
/// visibility.
pub open spec fn outlined(tokens: Seq<TokenView>) -> OutlineView
    recommends
        well_shaped(tokens),
{
    let head = tokens.take(tokens.len() - 2);
    let run = annotation_run(head);
    OutlineView {
        annotations: rendered(head.take(run)),
        visibility: rendered(head.skip(run)),
        name: tokens[tokens.len() - 2]->Ident_0,
        body: tokens[tokens.len() - 1]->inner,
    }
}

/// The two parts of an entry in a list of variants: the run of annotations
/// that it starts with, and the rest, each written out.
pub open spec fn entry_outlined(entry: Seq<TokenView>) -> (Seq<char>, Seq<char>) {
    let run = annotation_run(entry);
    (rendered(entry.take(run)), rendered(entry.skip(run)))
}

/// Whether an entry holds anything after its annotations.
pub open spec fn names_a_type(entry: Seq<TokenView>) -> bool {
    annotation_run(entry) < entry.len()
}

/// Cuts the tokens of a declaration into its parts, where they have the
/// shape of one.
pub fn outline(tokens: &Vec<Token>) -> (parts: Option<Outline>)
    ensures
        parts is Some <==> well_shaped(tokens.deep_view()),
        parts matches Some(found) ==> found.deep_view() == outlined(tokens.deep_view()),
{
    let ghost all = tokens.deep_view();
    let n: usize = tokens.len();
    if n < 2 {
        return None;
    }
    let (name, inner) = match (&tokens[n - 2], &tokens[n - 1]) {
        (Token::Ident(name), Token::Group { delimiter: Delimiter::Brace, inner }) => (
            name,
            inner,
        ),
        _ => {
            return None;
        },
    };
    let ghost head = all.take(n - 2);
    let run: usize = count_annotation_run(tokens, n - 2);
    assert(all.subrange(0, run as int) =~= head.take(run as int));
    assert(all.subrange(run as int, n - 2) =~= head.skip(run as int));
    Some(
        Outline {
            annotations: render(tokens, 0, run),
            visibility: render(tokens, run, n - 2),
            name: name.clone(),
            body: inner.clone(),
        },
    )
}

/// Cuts an entry into its annotations and the rest.
pub fn entry_outline(entry: &Vec<Token>) -> (parts: (String, String))
    ensures
        parts.0@ == entry_outlined(entry.deep_view()).0,
        parts.1@ == entry_outlined(entry.deep_view()).1,
{
    let ghost tokens = entry.deep_view();
    let run: usize = count_annotation_run(entry, entry.len());
    assert(tokens.take(entry.len() as int) =~= tokens);
    (render(entry, 0, run), render(entry, run, entry.len()))
}

/// The variant that an entry declares, given what the parsers made of its
/// two parts: none where either part was refused, else the texts of the
/// annotations in order, and the path.
pub open spec fn variant_of(
    annotations: Option<Seq<AnnotationView>>,
    path: Option<TypePathView>,
) -> Option<VariantPathView> {
    match (annotations, path) {
        (Some(annotations), Some(path)) => Some(
            VariantPathView { attrs: annotation_texts(annotations), path },
        ),
        _ => None,
    }
}

impl AnnotationView {
    /// Whether the annotation is a directive that names interfaces to
    /// implement: a list under the name `auto_impl`.
    pub open spec fn is_directive(self) -> bool {
        self.list matches Some(list) && list.name == Some("auto_impl"@)
    }
}

/// The texts of the annotations that are carried over to the union: those
/// that are no directive, in order.
pub open spec fn kept_texts(annotations: Seq<AnnotationView>) -> Seq<Seq<char>>
    decreases annotations.len(),
{
    if annotations.len() == 0 {
        Seq::empty()
    } else {
        let before = kept_texts(annotations.drop_last());
        if annotations.last().is_directive() {
            before
        } else {
            before.push(annotations.last().text)
        }
    }
}

/// The lists of the directives among the annotations, in order, each as the
/// text that stands between its brackets.
pub open spec fn directive_lists(annotations: Seq<AnnotationView>) -> Seq<Seq<char>>
    decreases annotations.len(),
{
    if annotations.len() == 0 {
        Seq::empty()
    } else {
        let before = directive_lists(annotations.drop_last());
        if annotations.last().is_directive() {
            before.push(annotations.last().list->0.tokens)
        } else {
            before
        }
    }
}

/// What the parsers made of the parts of a declaration; `None` where a part
/// was refused.
#[derive(Clone, Debug, PartialEq, Eq)]
pub struct Reading {
    /// The annotations in front.
    pub annotations: Option<Vec<Annotation>>,
    /// The paths that the directives among them list, in order.
    pub asked: Option<Vec<TypePath>>,
    pub visibility: Option<String>,
    pub name: Option<String>,
    pub variants: Option<Vec<VariantPath>>,
}

/// The view of `Reading` that contracts speak of: every text as its sequence of
/// characters.
pub struct ReadingView {
    pub annotations: Option<Seq<AnnotationView>>,
    pub asked: Option<Seq<TypePathView>>,
    pub visibility: Option<Seq<char>>,
    pub name: Option<Seq<char>>,
    pub variants: Option<Seq<VariantPathView>>,
}

impl DeepView for Reading {
    type V = ReadingView;

    open spec fn deep_view(&self) -> ReadingView {
        ReadingView {
            annotations: self.annotations.deep_view(),
            asked: self.asked.deep_view(),
            visibility: self.visibility.deep_view(),
            name: self.name.deep_view(),
            variants: self.variants.deep_view(),
        }
    }
}

/// The declaration that a reading amounts to. The first part that was
/// refused, in the order annotations, directives, visibility, name,
/// variants, gives the failure. Else the union carries the annotations that
/// are no directive, asks for the interfaces that the directives list, and
/// has the visibility, the name and the variants as they were read.
pub open spec fn assembled(reading: ReadingView) -> Result<TypeWrapInputView, ParseError> {
    match reading.annotations {
        None => Err(ParseError::Annotations),
        Some(annotations) => match reading.asked {
            None => Err(ParseError::Directive),
            Some(auto_impls) => match reading.visibility {
                None => Err(ParseError::Visibility),
                Some(vis) => match reading.name {
                    None => Err(ParseError::Name),
                    Some(ident) => match reading.variants {
                        None => Err(ParseError::Variants),
                        Some(variants) => Ok(
                            TypeWrapInputView {
                                attrs: kept_texts(annotations),
                                auto_impls,
                                vis,
                                ident,
                                variants,
                            },
                        ),
                    },
                },
            },
        },
    }
}

/// The result of reading a declaration as contracts speak of it.
pub open spec fn read(result: Result<TypeWrapInput, ParseError>) -> Result<
    TypeWrapInputView,
    ParseError,
> {
    match result {
        Ok(input) => Ok(input.deep_view()),
        Err(e) => Err(e),
    }
}

/// The outcome of reading a list after one more entry: all that was read
/// before with the new entry at the end, or nothing where an entry before it
/// or the new entry was refused.
pub open spec fn gathered_step<V>(so_far: Option<Seq<V>>, next: Option<V>) -> Option<Seq<V>> {
    match (so_far, next) {
        (Some(before), Some(last)) => Some(before.push(last)),
        _ => None,
    }
}

/// The outcome of reading the directives after one more of them: the paths
/// of the directives before it with the paths of the new one after them, or
/// nothing where a directive before it or the new one was refused.
pub open spec fn joined_step<V>(so_far: Option<Seq<V>>, next: Option<Seq<V>>) -> Option<Seq<V>> {
    match (so_far, next) {
        (Some(before), Some(last)) => Some(before + last),
        _ => None,
    }
}

/// Whether every type reference of the declaration has a last segment:
/// those of its variants and those of the interfaces that it asks for.
pub open spec fn nameable(input: TypeWrapInputView) -> bool {
    &&& forall|i: int|
        0 <= i < input.variants.len() ==> (#[trigger] input.variants[i]).path.resolvable()
    &&& forall|i: int|
        0 <= i < input.auto_impls.len() ==> (#[trigger] input.auto_impls[i]).resolvable()
}

/// Takes the answer for one more entry of a list into what was read so far.
pub fn gather_step<T: DeepView>(so_far: Option<Vec<T>>, next: Option<T>) -> (out: Option<Vec<T>>)
    ensures
        out.deep_view() == gathered_step(so_far.deep_view(), next.deep_view()),
{
    match (so_far, next) {
        (Some(read), Some(last)) => {
            let mut read = read;
            read.push(last);
            Some(read)
        },
        _ => None,
    }
}

/// Takes the paths of one more directive into those read so far.
pub fn join_step<T: DeepView>(so_far: Option<Vec<T>>, next: Option<Vec<T>>) -> (out: Option<
    Vec<T>,
>)
    ensures
        out.deep_view() == joined_step(so_far.deep_view(), next.deep_view()),
{
    match (so_far, next) {
        (Some(read), Some(last)) => {
            let mut read = read;
            let mut last = last;
            read.append(&mut last);
            Some(read)
        },
        _ => None,
    }
}

/// The texts of the annotations.
fn texts_of(annotations: &Vec<Annotation>) -> (texts: Vec<String>)
    ensures
        texts.deep_view() == annotation_texts(annotations.deep_view()),
{
    let mut texts: Vec<String> = Vec::new();
    let mut i: usize = 0;
    while i < annotations.len()
        invariant
            i <= annotations.len(),
            texts.deep_view() =~= Seq::new(i as nat, |k: int| annotations.deep_view()[k].text),
        decreases annotations.len() - i,
    {
        let ghost before = texts;
        let text = annotations[i].text.clone();
        let ghost pushed = text;
        texts.push(text);
        proof {
            lemma_deep_view_push(before, pushed, texts);
        }
        i += 1;
    }
    texts
}

impl VariantPath {
    /// Puts a variant together from what the parsers made of the two parts
    /// of its entry.
    pub fn from_parts(annotations: Option<Vec<Annotation>>, path: Option<TypePath>) -> (variant:
        Option<VariantPath>)
        ensures
            variant.deep_view() == variant_of(annotations.deep_view(), path.deep_view()),
    {
        match (annotations, path) {
            (Some(annotations), Some(path)) => Some(
                VariantPath { attrs: texts_of(&annotations), path },
            ),
            _ => None,
        }
    }

    /// Reads one entry of the list of variants. An entry that holds nothing
    /// after its annotations is none. Of any other the two parts that
    /// `entry_outline` cuts are handed to the parsers, and `from_parts` puts
    /// their answers together. A variant that was read has a last segment
    /// to be named after.
    pub fn parse(entry: &Vec<Token>) -> (variant: Option<VariantPath>)
        ensures
            !names_a_type(entry.deep_view()) ==> variant is None,
            variant matches Some(read) ==> read.deep_view().path.resolvable(),
    {
        let run: usize = count_annotation_run(entry, entry.len());
        assert(entry.deep_view().take(entry.len() as int) =~= entry.deep_view());
        if run == entry.len() {
            return None;
        }
        let parts = entry_outline(entry);
        let annotations = parse_attributes(parts.0.as_str());
        let path = parse_type_path(parts.1.as_str());
        VariantPath::from_parts(annotations, path)
    }
}

/// Reads every entry of the list of variants, in order: each is read by
/// `VariantPath::parse`, and `gather_step` takes its answer in. The first
/// entry that is no variant fails them all.
pub fn parse_variants(list: &Vec<Vec<Token>>) -> (variants: Option<Vec<VariantPath>>)
    ensures
        variants matches Some(read) ==> {
            &&& read.len() == list.len()
            &&& forall|i: int|
                0 <= i < read.len() ==> (#[trigger] read.deep_view()[i]).path.resolvable()
        },
        list.len() == 0 ==> variants.deep_view() == Some(Seq::<VariantPathView>::empty()),
        (exists|i: int| 0 <= i < list.len() && !names_a_type(#[trigger] list.deep_view()[i]))
            ==> variants is None,
{
    let mut variants: Option<Vec<VariantPath>> = Some(Vec::new());
    let mut i: usize = 0;
    while i < list.len()
        invariant
            i <= list.len(),
            variants is Some,
            variants->0.len() == i,
            i == 0 ==> variants.deep_view() == Some(Seq::<VariantPathView>::empty()),
            forall|k: int|
                0 <= k < i ==> (#[trigger] variants->0.deep_view()[k]).path.resolvable(),
            forall|j: int| 0 <= j < i ==> names_a_type(#[trigger] list.deep_view()[j]),
        decreases list.len() - i,
    {
        assert(list.deep_view()[i as int] == list[i as int].deep_view());
        let ghost before = variants->0.deep_view();
        let next = VariantPath::parse(&list[i]);
        let ghost answer = next.deep_view();
        variants = gather_step(variants, next);
        if variants.is_none() {
            return None;
        }
        assert(variants->0.deep_view() == before.push(answer->0));
        i += 1;
    }
    variants
}

/// Reads every entry of a list of paths, in order: each is written out and
/// handed to the parser, and `gather_step` takes its answer in. The first
/// entry that is no path fails them all, and an entry without tokens is
/// none.
pub fn parse_paths(list: &Vec<Vec<Token>>) -> (paths: Option<Vec<TypePath>>)
    ensures
        paths matches Some(read) ==> {
            &&& read.len() == list.len()
            &&& forall|i: int| 0 <= i < read.len() ==> (#[trigger] read.deep_view()[i]).resolvable()
        },
        list.len() == 0 ==> paths.deep_view() == Some(Seq::<TypePathView>::empty()),
        (exists|i: int| 0 <= i < list.len() && (#[trigger] list.deep_view()[i]).len() == 0)
            ==> paths is None,
{
    let mut paths: Option<Vec<TypePath>> = Some(Vec::new());
    let mut i: usize = 0;
    while i < list.len()
        invariant
            i <= list.len(),
            paths is Some,
            paths->0.len() == i,
            i == 0 ==> paths.deep_view() == Some(Seq::<TypePathView>::empty()),
            forall|k: int| 0 <= k < i ==> (#[trigger] paths->0.deep_view()[k]).resolvable(),
            forall|j: int| 0 <= j < i ==> (#[trigger] list.deep_view()[j]).len() > 0,
        decreases list.len() - i,
    {
        if list[i].len() == 0 {
            return None;
        }
        let ghost before = paths->0.deep_view();
        let next = parse_type_path(render(&list[i], 0, list[i].len()).as_str());
        let ghost answer = next.deep_view();
        paths = gather_step(paths, next);
        if paths.is_none() {
            return None;
        }
        assert(paths->0.deep_view() == before.push(answer->0));
        i += 1;
    }
    paths
}

impl Annotation {
    /// Whether the annotation is a directive that names interfaces to
    /// implement.
    pub fn is_directive(&self) -> (yes: bool)
        ensures
            yes == self.deep_view().is_directive(),
    {
        match &self.list {
            None => false,
            Some(list) => match &list.name {
                None => false,
                Some(name) => *name == String::from_str("auto_impl"),
            },
        }
    }

}

/// Reads the list of a directive: the text is handed to the lexer, the
/// tokens are cut at their commas, and `parse_paths` reads the entries.
fn parse_directive(list: &str) -> (paths: Option<Vec<TypePath>>)
    ensures
        paths matches Some(read) ==> forall|i: int|
            0 <= i < read.len() ==> (#[trigger] read.deep_view()[i]).resolvable(),
{
    match lex(list) {
        None => None,
        Some(tokens) => parse_paths(&split_entries(&tokens)),
    }
}

/// Tells the directives among the annotations from those that are carried
/// over to the union: the texts of these, and the lists of those.
pub fn sort_annotations(annotations: &Vec<Annotation>) -> (sorted: (Vec<String>, Vec<String>))
    ensures
        sorted.0.deep_view() == kept_texts(annotations.deep_view()),
        sorted.1.deep_view() == directive_lists(annotations.deep_view()),
{
    let ghost views = annotations.deep_view();
    let mut kept: Vec<String> = Vec::new();
    let mut lists: Vec<String> = Vec::new();
    let mut i: usize = 0;
    while i < annotations.len()
        invariant
            i <= annotations.len(),
            views == annotations.deep_view(),
            kept.deep_view() == kept_texts(views.take(i as int)),
            lists.deep_view() == directive_lists(views.take(i as int)),
        decreases annotations.len() - i,
    {
        let ghost next = views.take(i + 1);
        assert(next.drop_last() =~= views.take(i as int));
        if annotations[i].is_directive() {
            match &annotations[i].list {
                Some(list) => {
                    let text = list.tokens.clone();
                    lists.push(text);
                },
                None => {},
            }
        } else {
            let text = annotations[i].text.clone();
            kept.push(text);
        }
        i += 1;
    }
    assert(views.take(i as int) =~= views);
    (kept, lists)
}

/// Reads the lists of all the directives, in order, into one list of paths:
/// each list is read by itself, and `join_step` puts its paths after those
/// of the directives before it. The first list that is no list of paths
/// fails them all; no directive at all asks for nothing.
pub fn parse_directives(lists: &Vec<String>) -> (asked: Option<Vec<TypePath>>)
    ensures
        lists.len() == 0 ==> asked.deep_view() == Some(Seq::<TypePathView>::empty()),
        asked matches Some(read) ==> forall|i: int|
            0 <= i < read.len() ==> (#[trigger] read.deep_view()[i]).resolvable(),
{
    let mut asked: Option<Vec<TypePath>> = Some(Vec::new());
    let mut i: usize = 0;
    while i < lists.len()
        invariant
            i <= lists.len(),
            asked is Some,
            i == 0 ==> asked.deep_view() == Some(Seq::<TypePathView>::empty()),
            forall|k: int|
                0 <= k < asked->0.len() ==> (#[trigger] asked->0.deep_view()[k]).resolvable(),
        decreases lists.len() - i,
    {
        let ghost before = asked->0.deep_view();
        let next = parse_directive(lists[i].as_str());
        asked = join_step(asked, next);
        if asked.is_none() {
            return None;
        }
        let ghost after = asked->0.deep_view();
        assert forall|k: int| 0 <= k < after.len() implies (#[trigger] after[k]).resolvable() by {
            if k < before.len() {
                assert(after[k] == before[k]);
            }
        }
        i += 1;
    }
    asked
}

impl TypeWrapInput {
    /// Puts a declaration together from what the parsers made of its parts.
    pub fn from_parts(reading: Reading) -> (input: Result<TypeWrapInput, ParseError>)
        ensures
            read(input) == assembled(reading.deep_view()),
    {
        let annotations = match reading.annotations {
            None => {
                return Err(ParseError::Annotations);
            },
            Some(annotations) => annotations,
        };
        let auto_impls = match reading.asked {
            None => {
                return Err(ParseError::Directive);
            },
            Some(asked) => asked,
        };
        let vis = match reading.visibility {
            None => {
                return Err(ParseError::Visibility);
            },
            Some(vis) => vis,
        };
        let ident = match reading.name {
            None => {
                return Err(ParseError::Name);
            },
            Some(name) => name,
        };
        let variants = match reading.variants {
            None => {
                return Err(ParseError::Variants);
            },
            Some(variants) => variants,
        };
        let sorted = sort_annotations(&annotations);
        Ok(TypeWrapInput { attrs: sorted.0, auto_impls, vis, ident, variants })
    }

    /// Reads a declaration from its tokens. Tokens that have not the shape
    /// of a declaration fail for their shape, and no others do. Of any
    /// others the parts that `outline` cuts are handed to the parsers, the
    /// lists are read entry by entry, and `from_parts` puts the answers
    /// together. In a declaration that was read, every type reference has a
    /// last segment.
    pub fn from_tokens(tokens: &Vec<Token>) -> (input: Result<TypeWrapInput, ParseError>)
        ensures
            read(input) == Err::<TypeWrapInputView, ParseError>(ParseError::Shape)
                <==> !well_shaped(tokens.deep_view()),
            read(input) != Err::<TypeWrapInputView, ParseError>(ParseError::Tokens),
            input matches Ok(declaration) ==> nameable(declaration.deep_view()),
    {
        let parts = match outline(tokens) {
            None => {
                return Err(ParseError::Shape);
            },
            Some(parts) => parts,
        };
        let annotations = parse_attributes(parts.annotations.as_str());
        let asked = match &annotations {
            None => None,
            Some(annotations) => parse_directives(&sort_annotations(annotations).1),
        };
        let visibility = parse_visibility(parts.visibility.as_str());
        let name = parse_ident(parts.name.as_str());
        let variants = match lex(parts.body.as_str()) {
            None => None,
            Some(body) => parse_variants(&split_entries(&body)),
        };
        TypeWrapInput::from_parts(Reading { annotations, asked, visibility, name, variants })
    }

    /// Reads a declaration from its text. A text that the lexer refuses
    /// fails as no sequence of tokens; of any other the result is what
    /// `from_tokens` makes of the tokens that the lexer gave. In a
    /// declaration that was read, every type reference has a last segment.
    pub fn parse(text: &str) -> (input: Result<TypeWrapInput, ParseError>)
        ensures
            input matches Ok(declaration) ==> nameable(declaration.deep_view()),
    {
        match lex(text) {
            None => Err(ParseError::Tokens),
            Some(tokens) => TypeWrapInput::from_tokens(&tokens),
        }
    }
}

/// A declaration in which every type reference has a last segment, as every
/// declaration that was read has, gives each of its variants an arm: the
/// generation cannot fail for a variant without a name.
pub proof fn a_nameable_declaration_has_its_arms(input: TypeWrapInputView)
    requires
        nameable(input),
    ensures
        extracted_arms(input.variants) is Ok,
{
    lemma_first_true_none(unresolvable(input.variants));
}

} // verus!
