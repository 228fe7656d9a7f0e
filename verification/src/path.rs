//! File paths as sequences of components.

use vstd::prelude::*;

verus! {

/// The name of one directory entry.
///
/// `shown` is the name as text. Where the name is not valid text, `shown` stands for it on the
/// screen only, and `raw` holds its bytes.
pub struct FileName {
    pub shown: String,
    pub raw: Option<Vec<u8>>,
}

/// What a file name holds.
#[verifier::ext_equal]
pub struct NameView {
    pub shown: Seq<char>,
    pub raw: Option<Seq<u8>>,
}

impl View for FileName {
    type V = NameView;

    open spec fn view(&self) -> NameView {
        NameView {
            shown: self.shown@,
            raw: match self.raw {
                Some(bytes) => Some(bytes@),
                None => None,
            },
        }
    }
}

impl NameView {
    /// The name as text, where it is text.
    pub open spec fn text(self) -> Option<Seq<char>> {
        if self.raw is None {
            Some(self.shown)
        } else {
            None
        }
    }
}

/// The name that consists of the given text.
pub open spec fn named(text: Seq<char>) -> NameView {
    NameView { shown: text, raw: None }
}

fn same_bytes(left: &Vec<u8>, right: &Vec<u8>) -> (result: bool)
    ensures
        result == (left@ == right@),
{
    if left.len() != right.len() {
        return false;
    }
    let mut index: usize = 0;
    while index < left.len()
        invariant
            left@.len() == right@.len(),
            index <= left@.len(),
            forall|earlier: int| 0 <= earlier < index ==> left@[earlier] == right@[earlier],
        decreases left@.len() - index,
    {
        if left[index] != right[index] {
            return false;
        }
        index += 1;
    }
    assert(left@ =~= right@);
    true
}

fn copy_bytes(bytes: &Vec<u8>) -> (result: Vec<u8>)
    ensures
        result@ == bytes@,
{
    let mut result: Vec<u8> = Vec::new();
    let mut index: usize = 0;
    while index < bytes.len()
        invariant
            index <= bytes@.len(),
            result@ == bytes@.take(index as int),
        decreases bytes@.len() - index,
    {
        result.push(bytes[index]);
        index += 1;
        assert(bytes@.take(index as int) == bytes@.take(index - 1).push(bytes@[index - 1]));
    }
    assert(bytes@.take(bytes@.len() as int) == bytes@);
    result
}

impl FileName {
    /// The name that consists of the given text.
    pub fn from_text(text: &str) -> (result: Self)
        ensures
            result@ == named(text@),
    {
        FileName { shown: text.to_owned(), raw: None }
    }

    /// Tells whether two names are the same name.
    pub fn same(&self, other: &Self) -> (result: bool)
        ensures
            result == (self@ == other@),
    {
        let same_text = self.shown.eq(&other.shown);
        match (&self.raw, &other.raw) {
            (Some(left), Some(right)) => same_text && same_bytes(left, right),
            (None, None) => same_text,
            _ => false,
        }
    }

    /// Tells whether the name is the given text.
    pub fn is_text(&self, text: &str) -> (result: bool)
        ensures
            result == (self@.text() == Some(text@)),
    {
        self.raw.is_none() && self.shown.eq(&text.to_owned())
    }

    /// The name as text, where it is text.
    pub fn to_text(&self) -> (result: Option<String>)
        ensures
            match (result, self@.text()) {
                (Some(found), Some(text)) => found@ == text,
                (None, None) => true,
                _ => false,
            },
    {
        if self.raw.is_none() {
            Some(self.shown.clone())
        } else {
            None
        }
    }
}

impl Clone for FileName {
    fn clone(&self) -> (result: Self)
        ensures
            result@ == self@,
    {
        let raw = match &self.raw {
            Some(bytes) => Some(copy_bytes(bytes)),
            None => None,
        };
        FileName { shown: self.shown.clone(), raw }
    }
}

/// One component of a path.
pub enum Component {
    /// The leading `/`.
    Root,
    /// A leading `.`.
    Current,
    /// A `..`.
    Parent,
    /// An ordinary name.
    Normal(FileName),
}

/// What a component holds.
#[verifier::ext_equal]
pub enum ComponentView {
    Root,
    Current,
    Parent,
    Normal(NameView),
}

impl View for Component {
    type V = ComponentView;

    open spec fn view(&self) -> ComponentView {
        match self {
            Component::Root => ComponentView::Root,
            Component::Current => ComponentView::Current,
            Component::Parent => ComponentView::Parent,
            Component::Normal(name) => ComponentView::Normal(name@),
        }
    }
}

impl ComponentView {
    /// How the component is written.
    pub open spec fn text(self) -> Seq<char> {
        match self {
            ComponentView::Root => "/"@,
            ComponentView::Current => "."@,
            ComponentView::Parent => ".."@,
            ComponentView::Normal(name) => name.shown,
        }
    }
}

impl Component {
    /// Tells whether two components are the same.
    pub fn same(&self, other: &Self) -> (result: bool)
        ensures
            result == (self@ == other@),
    {
        match (self, other) {
            (Component::Root, Component::Root) => true,
            (Component::Current, Component::Current) => true,
            (Component::Parent, Component::Parent) => true,
            (Component::Normal(left), Component::Normal(right)) => left.same(right),
            _ => false,
        }
    }

    /// Writes the component.
    pub fn to_text(&self) -> (result: String)
        ensures
            result@ == self@.text(),
    {
        match self {
            Component::Root => "/".to_owned(),
            Component::Current => ".".to_owned(),
            Component::Parent => "..".to_owned(),
            Component::Normal(name) => name.shown.clone(),
        }
    }
}

impl Clone for Component {
    fn clone(&self) -> (result: Self)
        ensures
            result@ == self@,
    {
        match self {
            Component::Root => Component::Root,
            Component::Current => Component::Current,
            Component::Parent => Component::Parent,
            Component::Normal(name) => Component::Normal(name.clone()),
        }
    }
}

/// A path: its components from the outermost to the innermost.
pub struct FilePath {
    pub components: Vec<Component>,
}

/// The components of a path.
pub type PathView = Seq<ComponentView>;

impl View for FilePath {
    type V = PathView;

    open spec fn view(&self) -> PathView {
        self.components@.map_values(|component: Component| component@)
    }
}

/// The name at the end of a path, where it ends in an ordinary name.
pub open spec fn file_name(path: PathView) -> Option<NameView> {
    if path.len() > 0 {
        match path.last() {
            ComponentView::Normal(name) => Some(name),
            _ => None,
        }
    } else {
        None
    }
}

/// Whether a path ends in an ordinary name that is the given text.
pub open spec fn file_name_is(path: PathView, text: Seq<char>) -> bool {
    file_name(path) matches Some(name) && name.text() == Some(text)
}

/// A path without its last component. The root and the empty path have no parent.
pub open spec fn parent(path: PathView) -> Option<PathView> {
    if path.len() == 0 || path.last() is Root {
        None
    } else {
        Some(path.drop_last())
    }
}

/// A path with one more name behind it.
pub open spec fn child(path: PathView, name: NameView) -> PathView {
    path.push(ComponentView::Normal(name))
}

/// A path as it is written: a `/` stands between its components, but not a second one behind
/// the root.
pub open spec fn path_text(path: PathView) -> Seq<char>
    decreases path.len(),
{
    if path.len() == 0 {
        Seq::empty()
    } else {
        let outer = path.drop_last();
        if outer.len() == 0 || outer.last() is Root {
            path_text(outer) + path.last().text()
        } else {
            path_text(outer) + "/"@ + path.last().text()
        }
    }
}

/// A path as it is shown below `root`: behind `./` where it lies below the root, else whole.
pub open spec fn relative_path_text(root: PathView, path: PathView) -> Seq<char> {
    if root.is_prefix_of(path) {
        "./"@ + path_text(path.skip(root.len() as int))
    } else {
        path_text(path)
    }
}

impl FilePath {
    /// Tells whether two paths have the same components.
    pub fn same(&self, other: &Self) -> (result: bool)
        ensures
            result == (self@ == other@),
    {
        if self.components.len() != other.components.len() {
            assert(self@.len() != other@.len());
            return false;
        }
        let result = other.starts_with(self);
        proof {
            if self@.is_prefix_of(other@) {
                assert(self@ =~= other@);
            }
        }
        result
    }

    /// Tells whether the components of `prefix` stand at the beginning of the path.
    pub fn starts_with(&self, prefix: &Self) -> (result: bool)
        ensures
            result == prefix@.is_prefix_of(self@),
    {
        if prefix.components.len() > self.components.len() {
            return false;
        }
        let mut index: usize = 0;
        while index < prefix.components.len()
            invariant
                index <= prefix@.len() <= self@.len(),
                prefix@.take(index as int) == self@.take(index as int),
            decreases prefix@.len() - index,
        {
            if !prefix.components[index].same(&self.components[index]) {
                assert(prefix@[index as int] != self@[index as int]);
                assert(self@.subrange(0, prefix@.len() as int)[index as int]
                    == self@[index as int]);
                return false;
            }
            index += 1;
            assert(prefix@.take(index as int) == prefix@.take(index - 1).push(prefix@[index - 1]));
            assert(self@.take(index as int) == self@.take(index - 1).push(self@[index - 1]));
        }
        assert(prefix@.take(prefix@.len() as int) == prefix@);
        true
    }

    /// The name at the end of the path, where it ends in an ordinary name.
    pub fn file_name(&self) -> (result: Option<&FileName>)
        ensures
            match (result, file_name(self@)) {
                (Some(found), Some(name)) => found@ == name,
                (None, None) => true,
                _ => false,
            },
    {
        let length: usize = self.components.len();
        if length == 0 {
            return None;
        }
        assert(self@.last() == self.components@[length - 1]@);
        match &self.components[length - 1] {
            Component::Normal(name) => Some(name),
            _ => None,
        }
    }

    /// Tells whether the path ends in an ordinary name that is the given text.
    pub fn file_name_is(&self, text: &str) -> (result: bool)
        ensures
            result == file_name_is(self@, text@),
    {
        match self.file_name() {
            Some(name) => name.is_text(text),
            None => false,
        }
    }

    /// The path without its last component, where there is one to take off.
    pub fn parent(&self) -> (result: Option<FilePath>)
        ensures
            match (result, parent(self@)) {
                (Some(found), Some(path)) => found@ == path,
                (None, None) => true,
                _ => false,
            },
    {
        let length: usize = self.components.len();
        if length == 0 {
            return None;
        }
        assert(self@.last() == self.components@[length - 1]@);
        match &self.components[length - 1] {
            Component::Root => None,
            _ => Some(self.first_components(length - 1)),
        }
    }

    /// The path made of the first `count` components.
    fn first_components(&self, count: usize) -> (result: FilePath)
        requires
            count <= self@.len(),
        ensures
            result@ == self@.take(count as int),
    {
        self.components_between(0, count)
    }

    /// The path made of the components from `from` up to, not including, `to`.
    fn components_between(&self, from: usize, to: usize) -> (result: FilePath)
        requires
            from <= to <= self@.len(),
        ensures
            result@ == self@.subrange(from as int, to as int),
    {
        let mut result = FilePath { components: Vec::new() };
        let mut index: usize = from;
        assert(result@ =~= self@.subrange(from as int, from as int));
        while index < to
            invariant
                from <= index <= to <= self@.len(),
                result@ == self@.subrange(from as int, index as int),
            decreases to - index,
        {
            let ghost before = result@;
            result.components.push(self.components[index].clone());
            index += 1;
            assert(result@ =~= before.push(self@[index - 1]));
            assert(self@.subrange(from as int, index as int) =~= before.push(self@[index - 1]));
        }
        result
    }

    /// The path with one more name behind it.
    pub fn child(&self, name: &str) -> (result: FilePath)
        ensures
            result@ == child(self@, named(name@)),
    {
        let mut result = self.clone();
        let ghost before = result@;
        result.components.push(Component::Normal(FileName::from_text(name)));
        assert(result@ =~= before.push(ComponentView::Normal(named(name@))));
        result
    }

    /// Writes the path.
    pub fn to_text(&self) -> (result: String)
        ensures
            result@ == path_text(self@),
    {
        let mut result = String::new();
        let mut index: usize = 0;
        assert(path_text(self@.take(0)) =~= Seq::<char>::empty());
        while index < self.components.len()
            invariant
                index <= self@.len(),
                self@.len() == self.components@.len(),
                result@ == path_text(self@.take(index as int)),
            decreases self@.len() - index,
        {
            let ghost outer = self@.take(index as int);
            if index > 0 {
                assert(outer.last() == self.components@[index - 1]@);
                match &self.components[index - 1] {
                    Component::Root => {},
                    _ => {
                        result.append("/");
                    },
                }
            }
            let written = self.components[index].to_text();
            result.append(written.as_str());
            index += 1;
            assert(self@.take(index as int).drop_last() =~= outer);
            assert(self@.take(index as int).last() == self.components@[index - 1]@);
        }
        assert(self@.take(self@.len() as int) =~= self@);
        result
    }
}

impl Clone for FilePath {
    fn clone(&self) -> (result: Self)
        ensures
            result@ == self@,
    {
        let result = self.first_components(self.components.len());
        assert(self@.take(self@.len() as int) =~= self@);
        result
    }
}

/// Writes a path as it is shown below `root`: behind `./` where it lies below the root, else
/// whole.
pub fn display_relative_path(root: &FilePath, path: &FilePath) -> (result: String)
    ensures
        result@ == relative_path_text(root@, path@),
{
    if path.starts_with(root) {
        let rest = path.components_between(root.components.len(), path.components.len());
        "./".to_owned().concat(rest.to_text().as_str())
    } else {
        path.to_text()
    }
}

} // verus!
