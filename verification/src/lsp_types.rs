//! The editor-facing completion shapes the engine fills in: positions,
//! ranges, text edits, commands, completion items and lists, and
//! documentation values.

use vstd::prelude::*;

verus! {

/// A zero-based line and character position in a document.
#[derive(Clone, Copy, Debug, PartialEq, Eq, Structural)]
pub struct Position {
    pub line: u32,
    pub character: u32,
}

/// The document range a completion's text edit replaces.
#[derive(Clone, Copy, Debug, PartialEq, Eq, Structural)]
pub struct Range {
    pub start: Position,
    pub end: Position,
}

/// The kind a completion item presents as.
#[derive(Clone, Copy, Debug, PartialEq, Eq, Structural)]
pub enum CompletionItemKind {
    File,
    Folder,
}

/// A replacement of `range` by `new_text`.
#[derive(Debug, PartialEq)]
pub struct TextEdit {
    pub range: Range,
    pub new_text: String,
}

/// The spec-level shape of a text edit.
pub struct TextEditView {
    pub range: Range,
    pub new_text: Seq<char>,
}

impl View for TextEdit {
    type V = TextEditView;

    open spec fn view(&self) -> TextEditView {
        TextEditView { range: self.range, new_text: self.new_text@ }
    }
}

/// The views of a string vector.
pub open spec fn strings_view(v: Seq<String>) -> Seq<Seq<char>> {
    Seq::new(v.len(), |i: int| v[i]@)
}

/// The view of an optional string.
pub open spec fn opt_str_view(o: Option<String>) -> Option<Seq<char>> {
    match o {
        Option::Some(s) => Option::Some(s@),
        Option::None => Option::None,
    }
}

/// A follow-up command attached to a completion item.
#[derive(Debug, PartialEq)]
pub struct Command {
    pub title: String,
    pub command: String,
    pub arguments: Vec<String>,
}

/// The spec-level shape of a command.
pub struct CommandView {
    pub title: Seq<char>,
    pub command: Seq<char>,
    pub arguments: Seq<Seq<char>>,
}

impl View for Command {
    type V = CommandView;

    open spec fn view(&self) -> CommandView {
        CommandView { title: self.title@, command: self.command@, arguments: strings_view(self.arguments@) }
    }
}

/// One completion the engine offers.
#[derive(Debug, PartialEq)]
pub struct CompletionItem {
    pub label: String,
    pub kind: Option<CompletionItemKind>,
    pub detail: Option<String>,
    pub sort_text: Option<String>,
    pub filter_text: Option<String>,
    pub text_edit: Option<TextEdit>,
    pub command: Option<Command>,
    pub preselect: Option<bool>,
    /// The resolved documentation URL carried for follow-up resolution.
    pub data: Option<String>,
}

/// The spec-level shape of a completion item.
pub struct CompletionItemView {
    pub label: Seq<char>,
    pub kind: Option<CompletionItemKind>,
    pub detail: Option<Seq<char>>,
    pub sort_text: Option<Seq<char>>,
    pub filter_text: Option<Seq<char>>,
    pub text_edit: Option<TextEditView>,
    pub command: Option<CommandView>,
    pub preselect: Option<bool>,
    pub data: Option<Seq<char>>,
}

impl View for CompletionItem {
    type V = CompletionItemView;

    open spec fn view(&self) -> CompletionItemView {
        CompletionItemView {
            label: self.label@,
            kind: self.kind,
            detail: opt_str_view(self.detail),
            sort_text: opt_str_view(self.sort_text),
            filter_text: opt_str_view(self.filter_text),
            text_edit: match self.text_edit {
                Option::Some(t) => Option::Some(t@),
                Option::None => Option::None,
            },
            command: match self.command {
                Option::Some(c) => Option::Some(c@),
                Option::None => Option::None,
            },
            preselect: self.preselect,
            data: opt_str_view(self.data),
        }
    }
}

/// The list of completions for one request.
#[derive(Debug, PartialEq)]
pub struct CompletionList {
    pub items: Vec<CompletionItem>,
    pub is_incomplete: bool,
}

/// The spec-level shape of a completion list.
pub struct CompletionListView {
    pub items: Seq<CompletionItemView>,
    pub is_incomplete: bool,
}

/// The views of a completion item vector.
pub open spec fn items_view(v: Seq<CompletionItem>) -> Seq<CompletionItemView> {
    Seq::new(v.len(), |i: int| v[i]@)
}

impl View for CompletionList {
    type V = CompletionListView;

    open spec fn view(&self) -> CompletionListView {
        CompletionListView { items: items_view(self.items@), is_incomplete: self.is_incomplete }
    }
}

/// How documentation text is marked up.
#[derive(Clone, Copy, Debug, PartialEq, Eq, Structural)]
pub enum MarkupKind {
    PlainText,
    Markdown,
}

/// A documentation value: a bare string, or text with a markup kind.
#[derive(Debug, PartialEq)]
pub enum Documentation {
    Plain(String),
    Markup(MarkupKind, String),
}

/// The spec-level shape of a documentation value.
pub enum DocumentationView {
    Plain(Seq<char>),
    Markup(MarkupKind, Seq<char>),
}

impl View for Documentation {
    type V = DocumentationView;

    open spec fn view(&self) -> DocumentationView {
        match self {
            Documentation::Plain(s) => DocumentationView::Plain(s@),
            Documentation::Markup(k, s) => DocumentationView::Markup(*k, s@),
        }
    }
}

impl Documentation {
    /// Copy a documentation value.
    pub fn duplicate(&self) -> (r: Documentation)
        ensures
            r@ == self@,
    {
        match self {
            Documentation::Plain(s) => Documentation::Plain(s.clone()),
            Documentation::Markup(k, s) => Documentation::Markup(*k, s.clone()),
        }
    }
}

/// The items a variable-values endpoint returned, with paging and
/// preselection hints.
#[derive(Debug, PartialEq)]
pub struct VariableItemsList {
    pub items: Vec<String>,
    pub is_incomplete: bool,
    pub preselect: Option<String>,
}

/// The spec-level shape of a variable-items list.
pub struct VariableItemsListView {
    pub items: Seq<Seq<char>>,
    pub is_incomplete: bool,
    pub preselect: Option<Seq<char>>,
}

impl View for VariableItemsList {
    type V = VariableItemsListView;

    open spec fn view(&self) -> VariableItemsListView {
        VariableItemsListView {
            items: strings_view(self.items@),
            is_incomplete: self.is_incomplete,
            preselect: opt_str_view(self.preselect),
        }
    }
}

/// A variable-values response: a bare list of items, or a list with hints.
#[derive(Debug, PartialEq)]
pub enum VariableItems {
    Simple(Vec<String>),
    List(VariableItemsList),
}

/// The spec-level shape of a variable-items response.
pub enum VariableItemsView {
    Simple(Seq<Seq<char>>),
    List(VariableItemsListView),
}

impl View for VariableItems {
    type V = VariableItemsView;

    open spec fn view(&self) -> VariableItemsView {
        match self {
            VariableItems::Simple(v) => VariableItemsView::Simple(strings_view(v@)),
            VariableItems::List(l) => VariableItemsView::List(l@),
        }
    }
}

/// Copy a string vector.
pub fn copy_strings(v: &Vec<String>) -> (r: Vec<String>)
    ensures
        strings_view(r@) == strings_view(v@),
{
    let n = v.len();
    let mut out: Vec<String> = Vec::new();
    let mut i: usize = 0;
    while i < n
        invariant
            n == v@.len(),
            i <= n,
            out@.len() == i,
            forall|x: int| 0 <= x < i ==> out@[x]@ == v@[x]@,
        decreases n - i,
    {
        out.push(v[i].clone());
        i += 1;
    }
    proof {
        assert(strings_view(out@) =~= strings_view(v@));
    }
    out
}

impl VariableItems {
    /// Copy a variable-items response.
    pub fn duplicate(&self) -> (r: VariableItems)
        ensures
            r@ == self@,
    {
        match self {
            VariableItems::Simple(v) => VariableItems::Simple(copy_strings(v)),
            VariableItems::List(l) => VariableItems::List(
                VariableItemsList {
                    items: copy_strings(&l.items),
                    is_incomplete: l.is_incomplete,
                    preselect: match &l.preselect {
                        Option::Some(s) => Option::Some(s.clone()),
                        Option::None => Option::None,
                    },
                },
            ),
        }
    }
}

} // verus!
