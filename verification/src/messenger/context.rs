//! The path of open elements, asked by its end rather than kept as a tree.

use crate::messenger::common::attribute_views;
use crate::messenger::common::Attribute;
use crate::messenger::common::AttributeView;
use crate::messenger::error::ErrorKind;
use crate::messenger::error::MessengerError;
use crate::messenger::text::same_text;
use vstd::prelude::*;
use vstd::string::*;

verus! {

/// The names of the elements that are open, outermost first, and the
/// attributes of the element that opened last.
pub struct Context {
    path: Vec<String>,
    attributes: Vec<Attribute>,
}

/// What a [`Context`] holds.
pub struct ContextView {
    pub path: Seq<Seq<char>>,
    pub attributes: Seq<AttributeView>,
}

/// The texts of a list of names.
pub open spec fn names(list: Seq<&str>) -> Seq<Seq<char>> {
    list.map_values(|name: &str| name@)
}

pub open spec fn path_views(path: Seq<String>) -> Seq<Seq<char>> {
    path.map_values(|name: String| name@)
}

impl View for Context {
    type V = ContextView;

    closed spec fn view(&self) -> ContextView {
        ContextView { path: path_views(self.path@), attributes: attribute_views(self.attributes@) }
    }
}

impl Context {
    /// The context of a document of which nothing was read yet.
    pub fn new() -> (context: Context)
        ensures
            context@ == (ContextView { path: Seq::empty(), attributes: Seq::empty() }),
    {
        let context = Context { path: Vec::new(), attributes: Vec::new() };
        assert(context@.path =~= Seq::empty());
        assert(context@.attributes =~= Seq::empty());
        context
    }

    /// An element opens.
    pub fn enter(&mut self, name: String, attributes: Vec<Attribute>)
        ensures
            final(self)@ == (ContextView {
                path: old(self)@.path.push(name@),
                attributes: attribute_views(attributes@),
            }),
    {
        self.path.push(name);
        self.attributes = attributes;
        assert(self@.path =~= old(self)@.path.push(name@));
    }

    /// The innermost element closes. With no element open this is a fault
    /// of the document, and the context stays as it is.
    pub fn leave(&mut self) -> (left: Result<String, MessengerError>)
        ensures
            match left {
                Ok(name) => old(self)@.path.len() > 0 && name@ == old(self)@.path.last()
                    && final(self)@ == (ContextView {
                    path: old(self)@.path.drop_last(),
                    attributes: old(self)@.attributes,
                }),
                Err(e) => old(self)@.path.len() == 0 && e@.kind == ErrorKind::MalformedStructure
                    && final(self)@ == old(self)@,
            },
    {
        match self.path.pop() {
            Some(name) => {
                assert(self@.path =~= old(self)@.path.drop_last());
                Ok(name)
            },
            None => Err(
                MessengerError::of_kind(
                    ErrorKind::MalformedStructure,
                    "An element closes where none is open",
                ),
            ),
        }
    }

    /// Whether the path ends with the given names, in their order.
    pub fn ends_with(&self, suffix: &[&str]) -> (r: bool)
        ensures
            r == names(suffix@).is_suffix_of(self@.path),
    {
        let n = self.path.len();
        let k = suffix.len();
        if k > n {
            return false;
        }
        let ghost tail = self@.path.subrange(n - k, n as int);
        let mut i: usize = 0;
        while i < k
            invariant
                k <= n,
                n == self.path@.len(),
                k == suffix@.len(),
                i <= k,
                tail == self@.path.subrange(n - k, n as int),
                forall|j: int| 0 <= j < i ==> tail[j] == names(suffix@)[j],
            decreases k - i,
        {
            if !same_text(self.path[n - k + i].as_str(), suffix[i]) {
                assert(tail[i as int] != names(suffix@)[i as int]);
                return false;
            }
            i = i + 1;
        }
        assert(names(suffix@) =~= tail);
        true
    }

    /// Whether the path is made of the given names and no others.
    pub fn is_exactly(&self, whole: &[&str]) -> (r: bool)
        ensures
            r == (self@.path == names(whole@)),
    {
        let r = self.path.len() == whole.len() && self.ends_with(whole);
        proof {
            assert(self@.path.subrange(0, self@.path.len() as int) =~= self@.path);
            assert(names(whole@).len() == whole@.len());
        }
        r
    }

    /// Whether an element of the given name is open.
    pub fn contains(&self, name: &str) -> (r: bool)
        ensures
            r == self@.path.contains(name@),
    {
        let mut i: usize = 0;
        while i < self.path.len()
            invariant
                i <= self.path@.len(),
                forall|j: int| 0 <= j < i ==> self@.path[j] != name@,
            decreases self.path@.len() - i,
        {
            if same_text(self.path[i].as_str(), name) {
                assert(self@.path[i as int] == name@);
                return true;
            }
            i = i + 1;
        }
        false
    }

    /// The name of the innermost open element.
    pub fn innermost(&self) -> (name: Option<&str>)
        ensures
            match name {
                Some(text) => self@.path.len() > 0 && text@ == self@.path.last(),
                None => self@.path.len() == 0,
            },
    {
        let n = self.path.len();
        if n == 0 {
            None
        } else {
            Some(self.path[n - 1].as_str())
        }
    }

    /// The attributes of the element that opened last.
    pub fn attributes(&self) -> (attributes: &Vec<Attribute>)
        ensures
            attribute_views(attributes@) == self@.attributes,
    {
        &self.attributes
    }
}

} // verus!
