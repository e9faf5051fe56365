//! Paths of directory members.
use vstd::prelude::*;
use vstd::string::{StrSliceExecFns, StringExecFns};

verus! {

/// The separator between the components of a path.
pub open spec fn separator() -> char {
    '/'
}

/// `name` can be the name of a directory member: it is not empty, holds no
/// separator, and is neither `.` nor `..`.
pub open spec fn is_component(name: Seq<char>) -> bool {
    &&& name.len() > 0
    &&& forall|i: int| 0 <= i < name.len() ==> name[i] != separator()
    &&& !(name.len() <= 2 && forall|i: int| 0 <= i < name.len() ==> name[i] == '.')
}

/// The path of a directory made ready for a member's name: an empty path
/// and one that ends in a separator as they are, any other with a
/// separator after it.
pub open spec fn with_separator(dir: Seq<char>) -> Seq<char> {
    if dir.len() == 0 || dir.last() == separator() {
        dir
    } else {
        dir.push(separator())
    }
}

/// The path of the member `name` of the directory at `dir`.
pub open spec fn child_path(dir: Seq<char>, name: Seq<char>) -> Seq<char> {
    with_separator(dir) + name
}

/// `child` is the path of a member of the directory at `dir`: that
/// directory's path, a separator where it needs one, and one component.
pub open spec fn is_member_of(child: Seq<char>, dir: Seq<char>) -> bool {
    exists|name: Seq<char>| is_component(name) && child == child_path(dir, name)
}

/// The part of a path after its last separator: all of it where it has
/// none, nothing where it ends in one.
pub open spec fn last_component(path: Seq<char>) -> Seq<char>
    decreases path.len(),
{
    if path.len() == 0 || path.last() == separator() {
        Seq::empty()
    } else {
        last_component(path.drop_last()).push(path.last())
    }
}

/// Whether `name` can be the name of a directory member.
pub fn is_component_name(name: &str) -> (ok: bool)
    ensures
        ok == is_component(name@),
{
    let mut seen: u8 = 0;
    let mut separated = false;
    let mut dots = true;
    for c in it: name.chars()
        invariant
            it.seq() == name@,
            seen == if it.index() < 3 {
                it.index()
            } else {
                3
            },
            separated <==> exists|i: int| 0 <= i < it.index() && name@[i] == separator(),
            dots <==> forall|i: int| 0 <= i < it.index() ==> name@[i] == '.',
    {
        if seen < 3 {
            seen += 1;
        }
        if c == '/' {
            separated = true;
        }
        if c != '.' {
            dots = false;
        }
    }
    seen > 0 && !separated && !(seen <= 2 && dots)
}

/// The name of a directory member: one component of a path.
#[derive(Debug, PartialEq, Eq)]
pub struct Name {
    text: String,
}

impl View for Name {
    type V = Seq<char>;

    closed spec fn view(&self) -> Seq<char> {
        self.text@
    }
}

impl Name {
    #[verifier::type_invariant]
    spec fn well_formed(&self) -> bool {
        is_component(self.text@)
    }

    /// Takes `text` as a name, if it can be one.
    pub fn new(text: String) -> (made: Option<Name>)
        ensures
            made is Some <==> is_component(text@),
            made matches Some(name) ==> name@ == text@,
    {
        if is_component_name(text.as_str()) {
            Some(Name { text })
        } else {
            None
        }
    }

    /// The name as a string. It is a component, as every name is.
    pub fn as_str(&self) -> (text: &str)
        ensures
            text@ == self@,
            is_component(self@),
    {
        proof {
            use_type_invariant(self);
        }
        self.text.as_str()
    }

    /// Gives up the name for its string.
    pub fn into_string(self) -> (text: String)
        ensures
            text@ == self@,
            is_component(self@),
    {
        proof {
            use_type_invariant(&self);
        }
        self.text
    }
}

impl Clone for Name {
    fn clone(&self) -> (copy: Name)
        ensures
            copy@ == self@,
    {
        proof {
            use_type_invariant(self);
        }
        Name { text: self.text.clone() }
    }
}

/// Builds the path of the member `name` of the directory at `dir`.
pub fn join(dir: &str, name: &str) -> (child: String)
    ensures
        child@ == child_path(dir@, name@),
{
    let len = dir.unicode_len();
    let mut child = String::from_str(dir);
    if len > 0 && dir.get_char(len - 1) != '/' {
        proof {
            reveal_strlit("/");
        }
        child.append("/");
        assert(child@ =~= dir@.push(separator()));
    }
    child.append(name);
    child
}

/// After a path that is empty or ends in a separator, text without a
/// separator is the last component.
proof fn lemma_last_component_of_sum(prefix: Seq<char>, name: Seq<char>)
    requires
        prefix.len() == 0 || prefix.last() == separator(),
        forall|i: int| 0 <= i < name.len() ==> name[i] != separator(),
    ensures
        last_component(prefix + name) == name,
    decreases name.len(),
{
    if name.len() == 0 {
        assert(prefix + name =~= prefix);
        assert(last_component(prefix) =~= name);
    } else {
        assert((prefix + name).drop_last() =~= prefix + name.drop_last());
        lemma_last_component_of_sum(prefix, name.drop_last());
        assert(name.drop_last().push(name.last()) =~= name);
    }
}

/// A member's path is its directory's path, a separator where that path
/// needs one, and the member's name, which is the path's last component:
/// no directory lies between the two.
pub proof fn lemma_member_is_directly_below(dir: Seq<char>, name: Seq<char>)
    requires
        is_component(name),
    ensures
        is_member_of(child_path(dir, name), dir),
        last_component(child_path(dir, name)) == name,
        child_path(dir, name).take(child_path(dir, name).len() - name.len()) == with_separator(dir),
        dir.is_prefix_of(child_path(dir, name)),
        child_path(dir, name).len() > dir.len(),
{
    let child = child_path(dir, name);
    lemma_last_component_of_sum(with_separator(dir), name);
    assert(child.take(child.len() - name.len()) =~= with_separator(dir));
}

} // verus!
