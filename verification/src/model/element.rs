//! The elements of a decoded XML document.

use crate::encoder::{end_tag_bytes, push_empty_tag, push_markup, start_tag_bytes};
use crate::model::value::Value;
use crate::text::{push_char, push_str};
use crate::visitor::xml::{find_key, lemma_key_index, pairs_view, value_of};
use vstd::prelude::*;

verus! {

/// The name of an element, with the prefixes of its namespaces.
#[derive(Debug)]
pub struct Tag {
    name: String,
    prefixes: Vec<String>,
}

impl Tag {
    pub closed spec fn spec_name(&self) -> Seq<char> {
        self.name@
    }

    pub closed spec fn spec_prefixes(&self) -> Seq<Seq<char>> {
        self.prefixes@.map_values(|p: String| p@)
    }

    pub fn new(name: String, prefixes: Vec<String>) -> (r: Self)
        ensures
            r.spec_name() == name@,
            r.spec_prefixes() == prefixes@.map_values(|p: String| p@),
    {
        Self { name, prefixes }
    }

    pub fn name(&self) -> (r: String)
        ensures
            r@ == self.spec_name(),
    {
        self.name.clone()
    }

    pub fn prefixes(&self) -> (r: &[String])
        ensures
            r@.map_values(|p: String| p@) == self.spec_prefixes(),
    {
        self.prefixes.as_slice()
    }
}

/// The value of an attribute of an element: its text, or a value whose text is
/// computed in floating point (a dimension, a fraction or a float), left to the
/// rendering.
#[derive(Debug)]
pub enum AttributeValue {
    Text(String),
    Unformatted(Value),
}

/// An element of a XML document: a tag, attributes (each name once, in the order they
/// were first set), children and the depth at which it stands.
#[derive(Debug)]
pub struct Element {
    tag: Tag,
    attrs: Vec<(String, AttributeValue)>,
    children: Vec<Element>,
    level: u32,
}

impl Element {
    pub closed spec fn spec_tag(&self) -> &Tag {
        &self.tag
    }

    pub closed spec fn spec_attributes(&self) -> Seq<(String, AttributeValue)> {
        self.attrs@
    }

    pub closed spec fn spec_children(&self) -> Seq<Element> {
        self.children@
    }

    pub closed spec fn spec_level(&self) -> u32 {
        self.level
    }

    /// The element with its level set to `level`.
    pub closed spec fn with_level(self, level: u32) -> Element {
        Element { level, ..self }
    }

    /// Whether `self` is `parent` with `child` appended to its children.
    pub closed spec fn is_parent_with(self, parent: Element, child: Element) -> bool {
        &&& self.tag == parent.tag
        &&& self.attrs@ == parent.attrs@
        &&& self.level == parent.level
        &&& self.children@ == parent.children@.push(child)
    }

    pub fn new(tag: Tag, attrs: Vec<(String, AttributeValue)>) -> (r: Self)
        ensures
            r.spec_tag() == &tag,
            r.spec_attributes() == attrs@,
            r.spec_children() == Seq::<Element>::empty(),
            r.spec_level() == 0,
    {
        Self { tag, attrs, children: Vec::new(), level: 0 }
    }

    pub fn append(&mut self, element: Self)
        ensures
            final(self).spec_tag() == old(self).spec_tag(),
            final(self).spec_attributes() == old(self).spec_attributes(),
            final(self).spec_children() == old(self).spec_children().push(element),
            final(self).spec_level() == old(self).spec_level(),
    {
        self.children.push(element);
    }

    pub fn set_level(&mut self, level: u32)
        ensures
            *final(self) == old(self).with_level(level),
    {
        self.level = level;
    }

    pub fn attributes(&self) -> (r: &Vec<(String, AttributeValue)>)
        ensures
            r@ == self.spec_attributes(),
    {
        &self.attrs
    }

    pub fn tag(&self) -> (r: &Tag)
        ensures
            r == self.spec_tag(),
    {
        &self.tag
    }

    pub fn children(&self) -> (r: &[Element])
        ensures
            r@ == self.spec_children(),
    {
        self.children.as_slice()
    }

    pub fn level(&self) -> (r: u32)
        ensures
            r == self.spec_level(),
    {
        self.level
    }
}

/// The text of an element and of what it holds: a line for it, indented by as many tabs
/// as its level, then the text of each child in order.
pub open spec fn element_text(e: Element) -> Seq<char>
    decreases e, 0nat,
{
    Seq::new(e.spec_level() as nat, |i: int| '\t') + "Element: "@ + e.spec_tag().spec_name()
        + "\n"@ + children_text(e.spec_children(), e.spec_children().len())
}

/// The texts of the first `n` elements of `cs`, one after the other.
pub open spec fn children_text(cs: Seq<Element>, n: nat) -> Seq<char>
    decreases cs, n,
{
    if n == 0 || n > cs.len() {
        Seq::empty()
    } else {
        children_text(cs, (n - 1) as nat) + element_text(cs[n - 1])
    }
}

impl Element {
    /// The text of the element and of what it holds; see `element_text`.
    pub fn description(&self) -> (r: String)
        ensures
            r@ == element_text(*self),
        decreases self,
    {
        let mut out = String::new();
        let mut i: u32 = 0;
        while i < self.level
            invariant
                i <= self.level,
                out@ == Seq::new(i as nat, |k: int| '\t'),
            decreases self.level - i,
        {
            push_char(&mut out, '\t');
            i = i + 1;
            assert(out@ =~= Seq::new(i as nat, |k: int| '\t'));
        }
        push_str(&mut out, "Element: ");
        push_str(&mut out, self.tag.name.as_str());
        push_str(&mut out, "\n");
        proof {
            reveal_strlit("Element: ");
            reveal_strlit("\n");
        }
        let ghost head = out@;
        assert(head =~= Seq::new(self.level as nat, |k: int| '\t') + "Element: "@ + self.tag.name@
            + "\n"@);
        let mut k: usize = 0;
        while k < self.children.len()
            invariant
                k <= self.children@.len(),
                out@ == head + children_text(self.children@, k as nat),
            decreases self.children@.len() - k,
        {
            assert(decreases_to!(self => self.children@[k as int]));
            let text = self.children[k].description();
            push_str(&mut out, text.as_str());
            k = k + 1;
            assert(out@ =~= head + children_text(self.children@, k as nat));
        }
        out
    }
}

/// The text of the attributes of a start tag: for each, a space, its name, `="`, its
/// value and `"`.
pub open spec fn attributes_markup(attrs: Seq<(Seq<char>, Seq<char>)>) -> Seq<char>
    decreases attrs.len(),
{
    if attrs.len() == 0 {
        Seq::empty()
    } else {
        attributes_markup(attrs.drop_last()) + " "@ + attrs.last().0 + "=\""@ + attrs.last().1
            + "\""@
    }
}

/// The start tag of an element with the given name and attributes.
pub open spec fn start_tag_markup(name: Seq<char>, attrs: Seq<(Seq<char>, Seq<char>)>) -> Seq<
    char,
> {
    "<"@ + name + attributes_markup(attrs) + ">"@
}

/// The tag of an element without children: as a start tag, closed by a space and `/>`.
pub open spec fn empty_tag_markup(name: Seq<char>, attrs: Seq<(Seq<char>, Seq<char>)>) -> Seq<
    char,
> {
    "<"@ + name + attributes_markup(attrs) + " />"@
}

/// The end tag of an element.
pub open spec fn end_tag_markup(name: Seq<char>) -> Seq<char> {
    "</"@ + name + ">"@
}

/// What stands before a tag at `depth`: a line break, then two spaces per level.
pub open spec fn line_start(depth: nat) -> Seq<char> {
    "\n"@ + Seq::new(2 * depth, |i: int| ' ')
}

/// The declarations of the namespaces `uris` that have a prefix in `namespaces`, in
/// order: `xmlns:` and the prefix, with the namespace as value.
pub open spec fn declarations(namespaces: Seq<(Seq<char>, Seq<char>)>, uris: Seq<Seq<char>>) -> Seq<
    (Seq<char>, Seq<char>),
>
    decreases uris.len(),
{
    if uris.len() == 0 {
        Seq::empty()
    } else {
        let rest = declarations(namespaces, uris.drop_last());
        match value_of(namespaces, uris.last()) {
            Some(prefix) => rest.push(("xmlns:"@ + prefix, uris.last())),
            None => rest,
        }
    }
}

/// The text of an attribute value that is text.
pub open spec fn value_markup(v: AttributeValue) -> Seq<char> {
    match v {
        AttributeValue::Text(t) => t@,
        AttributeValue::Unformatted(_) => Seq::empty(),
    }
}

/// The attributes that the start tag of `e` holds: the declarations of its namespaces,
/// then its own attributes.
pub open spec fn tag_attributes(namespaces: Seq<(Seq<char>, Seq<char>)>, e: Element) -> Seq<
    (Seq<char>, Seq<char>),
> {
    declarations(namespaces, e.spec_tag().spec_prefixes()) + e.spec_attributes().map_values(
        |p: (String, AttributeValue)| (p.0@, value_markup(p.1)),
    )
}

/// Whether every attribute value of `e` and of what it holds is text.
pub open spec fn all_text(e: Element) -> bool
    decreases e, 0nat,
{
    &&& forall|i: int| 0 <= i < e.spec_attributes().len() ==> #[trigger] e.spec_attributes()[i].1 is Text
    &&& children_all_text(e.spec_children(), e.spec_children().len())
}

/// Whether every attribute value of the first `n` elements of `cs`, and of what they
/// hold, is text.
pub open spec fn children_all_text(cs: Seq<Element>, n: nat) -> bool
    decreases cs, n,
{
    if n == 0 || n > cs.len() {
        true
    } else {
        children_all_text(cs, (n - 1) as nat) && all_text(cs[n - 1])
    }
}

/// The XML text of `e` and of what it holds, at `depth`: an element without children is
/// one tag; any other is its start tag, its children one level deeper, and its end tag on
/// a line of its own.
pub open spec fn element_markup(namespaces: Seq<(Seq<char>, Seq<char>)>, e: Element, depth: nat) -> Seq<
    char,
>
    decreases e, 0nat,
{
    let name = e.spec_tag().spec_name();
    let attrs = tag_attributes(namespaces, e);
    if e.spec_children().len() == 0 {
        line_start(depth) + empty_tag_markup(name, attrs)
    } else {
        line_start(depth) + start_tag_markup(name, attrs) + children_markup(
            namespaces,
            e.spec_children(),
            e.spec_children().len(),
            depth + 1,
        ) + line_start(depth) + end_tag_markup(name)
    }
}

/// The XML texts of the first `n` elements of `cs`, at `depth`, one after the other.
pub open spec fn children_markup(
    namespaces: Seq<(Seq<char>, Seq<char>)>,
    cs: Seq<Element>,
    n: nat,
    depth: nat,
) -> Seq<char>
    decreases cs, n,
{
    if n == 0 || n > cs.len() {
        Seq::empty()
    } else {
        children_markup(namespaces, cs, (n - 1) as nat, depth) + element_markup(
            namespaces,
            cs[n - 1],
            depth,
        )
    }
}

impl Element {
    /// Whether every attribute value of the element and of what it holds is text.
    pub fn has_only_text(&self) -> (r: bool)
        ensures
            r == all_text(*self),
        decreases self,
    {
        let mut i: usize = 0;
        while i < self.attrs.len()
            invariant
                i <= self.attrs@.len(),
                forall|j: int| 0 <= j < i ==> #[trigger] self.attrs@[j].1 is Text,
            decreases self.attrs@.len() - i,
        {
            match &self.attrs[i].1 {
                AttributeValue::Text(_) => {},
                AttributeValue::Unformatted(_) => {
                    return false;
                },
            }
            i = i + 1;
        }
        let mut k: usize = 0;
        while k < self.children.len()
            invariant
                k <= self.children@.len(),
                forall|j: int| 0 <= j < self.attrs@.len() ==> #[trigger] self.attrs@[j].1 is Text,
                children_all_text(self.children@, k as nat),
            decreases self.children@.len() - k,
        {
            assert(decreases_to!(self => self.children@[k as int]));
            if !self.children[k].has_only_text() {
                proof {
                    if all_text(*self) {
                        lemma_children_all_text_prefix(
                            self.children@,
                            (k + 1) as nat,
                            self.children@.len(),
                        );
                    }
                }
                return false;
            }
            k = k + 1;
        }
        true
    }

    /// The attributes of the start tag, with the namespaces' prefixes in `namespaces`.
    fn markup_attributes(&self, namespaces: &Vec<(String, String)>) -> (r: Vec<(String, String)>)
        requires
            all_text(*self),
        ensures
            pairs_view(r@) == tag_attributes(pairs_view(namespaces@), *self),
    {
        let ghost ns = pairs_view(namespaces@);
        let ghost uris = self.tag.spec_prefixes();
        let prefixes = self.tag.prefixes();
        let mut out: Vec<(String, String)> = Vec::new();
        let mut i: usize = 0;
        while i < prefixes.len()
            invariant
                i <= prefixes@.len(),
                ns == pairs_view(namespaces@),
                prefixes@.map_values(|p: String| p@) == uris,
                pairs_view(out@) == declarations(ns, uris.subrange(0, i as int)),
            decreases prefixes@.len() - i,
        {
            let uri = &prefixes[i];
            assert(uris[i as int] == uri@);
            assert(uris.subrange(0, i + 1).drop_last() =~= uris.subrange(0, i as int));
            assert(uris.subrange(0, i + 1).last() == uri@);
            proof {
                lemma_key_index(ns, uri@, 0);
            }
            match find_key(namespaces, uri) {
                Some(k) => {
                    assert(ns[k as int].1 == namespaces@[k as int].1@);
                    let mut name = String::new();
                    push_str(&mut name, "xmlns:");
                    push_str(&mut name, namespaces[k].1.as_str());
                    proof {
                        reveal_strlit("xmlns:");
                    }
                    let ghost before = pairs_view(out@);
                    let ghost entry = (name@, uri@);
                    out.push((name, uri.clone()));
                    assert(pairs_view(out@) =~= before.push(entry));
                },
                None => {},
            }
            i = i + 1;
        }
        assert(uris.subrange(0, prefixes@.len() as int) =~= uris);
        let ghost decls = pairs_view(out@);
        let ghost attrs = self.attrs@.map_values(
            |p: (String, AttributeValue)| (p.0@, value_markup(p.1)),
        );
        let mut j: usize = 0;
        while j < self.attrs.len()
            invariant
                j <= self.attrs@.len(),
                all_text(*self),
                attrs == self.attrs@.map_values(
                    |p: (String, AttributeValue)| (p.0@, value_markup(p.1)),
                ),
                pairs_view(out@) == decls + attrs.subrange(0, j as int),
            decreases self.attrs@.len() - j,
        {
            assert(self.attrs@[j as int].1 is Text);
            let ghost before = pairs_view(out@);
            match &self.attrs[j].1 {
                AttributeValue::Text(t) => {
                    out.push((self.attrs[j].0.clone(), t.clone()));
                },
                AttributeValue::Unformatted(_) => {},
            }
            assert(pairs_view(out@) =~= before.push(attrs[j as int]));
            j = j + 1;
            assert(decls + attrs.subrange(0, j as int) =~= before.push(attrs[j - 1]));
        }
        assert(attrs.subrange(0, self.attrs@.len() as int) =~= attrs);
        out
    }

    /// Writes the XML text of the element at `depth` (`indent` holds two spaces per
    /// level) to `out`.
    pub(crate) fn write_markup(
        &self,
        out: &mut String,
        namespaces: &Vec<(String, String)>,
        indent: &String,
        Ghost(depth): Ghost<nat>,
    )
        requires
            all_text(*self),
            indent@ == Seq::new(2 * depth, |i: int| ' '),
        ensures
            final(out)@ == old(out)@ + element_markup(pairs_view(namespaces@), *self, depth),
        decreases self,
    {
        let ghost ns = pairs_view(namespaces@);
        let attrs = self.markup_attributes(namespaces);
        let name = self.tag.name();
        push_char(out, '\n');
        push_str(out, indent.as_str());
        proof {
            reveal_strlit("\n");
            assert("\n"@ =~= seq!['\n']);
        }
        assert(out@ =~= old(out)@ + line_start(depth));
        if self.children.len() == 0 {
            push_empty_tag(out, name.as_str(), &attrs);
        } else {
            let bytes = start_tag_bytes(name.as_str(), &attrs);
            push_markup(out, bytes, Ghost(start_tag_markup(name@, pairs_view(attrs@))));
            let ghost head = out@;
            let mut child_indent = indent.clone();
            push_str(&mut child_indent, "  ");
            proof {
                reveal_strlit("  ");
            }
            assert(child_indent@ =~= Seq::new(2 * (depth + 1), |i: int| ' '));
            let mut k: usize = 0;
            while k < self.children.len()
                invariant
                    k <= self.children@.len(),
                    all_text(*self),
                    ns == pairs_view(namespaces@),
                    child_indent@ == Seq::new(2 * (depth + 1), |i: int| ' '),
                    out@ == head + children_markup(ns, self.children@, k as nat, depth + 1),
                decreases self.children@.len() - k,
            {
                assert(decreases_to!(self => self.children@[k as int]));
                proof {
                    lemma_children_all_text_prefix(self.children@, (k + 1) as nat, self.children@.len());
                }
                self.children[k].write_markup(out, namespaces, &child_indent, Ghost(depth + 1));
                k = k + 1;
                assert(out@ =~= head + children_markup(ns, self.children@, k as nat, depth + 1));
            }
            let ghost middle = out@;
            push_char(out, '\n');
            push_str(out, indent.as_str());
            assert("\n"@ =~= seq!['\n']);
            assert(out@ =~= middle + line_start(depth));
            let bytes = end_tag_bytes(name.as_str());
            push_markup(out, bytes, Ghost(end_tag_markup(name@)));
        }
        assert(out@ =~= old(out)@ + element_markup(ns, *self, depth));
    }
}

/// What holds of the first `n` children holds of fewer.
proof fn lemma_children_all_text_prefix(cs: Seq<Element>, m: nat, n: nat)
    requires
        m <= n <= cs.len(),
        children_all_text(cs, n),
    ensures
        children_all_text(cs, m),
        0 < m <= cs.len() ==> all_text(cs[m - 1]),
    decreases n,
{
    if m < n {
        lemma_children_all_text_prefix(cs, m, (n - 1) as nat);
    }
}

/// Whether `new` is `old` after the innermost open element ended: it became the last
/// child of the element around it, or the root when there was none; nothing changed when
/// no element was open.
pub open spec fn ended(new: ElementContainer, old: ElementContainer) -> bool {
    let stack = old.spec_stack();
    if stack.len() == 0 {
        &&& new.spec_stack() == stack
        &&& new.spec_root() == old.spec_root()
    } else if stack.len() == 1 {
        &&& new.spec_stack() == Seq::<Element>::empty()
        &&& new.spec_root() == Some(stack[0])
    } else {
        &&& new.spec_stack().len() == stack.len() - 1
        &&& new.spec_stack().drop_last() == stack.drop_last().drop_last()
        &&& new.spec_stack().last().is_parent_with(stack[stack.len() - 2], stack.last())
        &&& new.spec_root() == old.spec_root()
    }
}

/// Builds the tree of elements from the starts and ends of the tags, in document order.
#[derive(Debug)]
pub struct ElementContainer {
    stack: Vec<Element>,
    root: Option<Element>,
}

impl ElementContainer {
    /// The elements started and not yet ended, outermost first.
    pub closed spec fn spec_stack(&self) -> Seq<Element> {
        self.stack@
    }

    pub closed spec fn spec_root(&self) -> Option<Element> {
        self.root
    }

    /// An empty container.
    pub fn new() -> (r: Self)
        ensures
            r.spec_stack() == Seq::<Element>::empty(),
            r.spec_root() == None::<Element>,
    {
        Self { stack: Vec::new(), root: None }
    }

    /// Starts an element, at the depth of the elements open around it.
    pub fn start_element(&mut self, element: Element)
        ensures
            final(self).spec_stack() == old(self).spec_stack().push(
                element.with_level(old(self).spec_stack().len() as u32),
            ),
            final(self).spec_root() == old(self).spec_root(),
    {
        let mut element = element;
        element.set_level(self.stack.len() as u32);
        self.stack.push(element);
    }

    /// Ends the innermost open element: it becomes the last child of the element around
    /// it, or the root when there is none. Nothing happens when no element is open.
    pub fn end_element(&mut self)
        ensures
            ended(*final(self), *old(self)),
    {
        match self.stack.pop() {
            None => {},
            Some(element) => {
                match self.stack.pop() {
                    None => {
                        assert(self.stack@ =~= Seq::<Element>::empty());
                        self.root = Some(element);
                    },
                    Some(parent) => {
                        let mut parent = parent;
                        parent.append(element);
                        self.stack.push(parent);
                        assert(self.stack@.drop_last() =~= old(self).stack@.drop_last().drop_last());
                    },
                }
            },
        }
    }

    pub fn root(&self) -> (r: &Option<Element>)
        ensures
            *r == self.spec_root(),
    {
        &self.root
    }
}

impl Default for ElementContainer {
    fn default() -> (r: Self)
        ensures
            r.spec_stack() == Seq::<Element>::empty(),
            r.spec_root() == None::<Element>,
    {
        ElementContainer::new()
    }
}

} // verus!
