//! A minimal model of a parsed XML document: a tree of named elements, each
//! carrying its immediate text content and its child elements in document
//! order.  Namespaces are deliberately absent: the statement format is matched
//! on local names only.

use vstd::prelude::*;

verus! {

/// One element of a parsed document.
///
/// `text` is the text content directly under this element (what the
/// application's XML parser reports for the element itself, not including
/// text of descendants), and `children` are its child elements in document
/// order.
pub struct XmlNode {
    pub name: String,
    pub text: String,
    pub children: Vec<XmlNode>,
}

impl XmlNode {
    /// The first direct child whose name is `name`, if any.
    pub open spec fn spec_child_named(&self, name: Seq<char>) -> Option<XmlNode> {
        first_named(self.children@, name)
    }

    /// Looks a child up by local name, as `spec_child_named` describes.
    pub fn get_child<'a>(&'a self, name: &str) -> (r: Option<&'a XmlNode>)
        ensures
            match r {
                Some(c) => self.spec_child_named(name@) == Some(*c),
                None => self.spec_child_named(name@) is None,
            },
    {
        let n = self.children.len();
        let mut i: usize = 0;
        while i < n
            invariant
                n == self.children@.len(),
                i <= n,
                forall|j: int| 0 <= j < i ==> self.children@[j].name@ != name@,
            decreases n - i,
        {
            if str_eq(self.children[i].name.as_str(), name) {
                proof {
                    lemma_first_named_skip(self.children@, name@, i as int);
                }
                return Some(&self.children[i]);
            }
            i = i + 1;
        }
        proof {
            lemma_first_named_skip(self.children@, name@, n as int);
        }
        None
    }

    /// The child reached by descending `name` then `inner`, if both steps
    /// find an element.
    pub open spec fn spec_descend2(&self, name: Seq<char>, inner: Seq<char>) -> Option<XmlNode> {
        match self.spec_child_named(name) {
            Some(c) => c.spec_child_named(inner),
            None => None,
        }
    }

    /// Two-step descent: the first `name` child's first `inner` child.
    pub fn get_descendant2<'a>(&'a self, name: &str, inner: &str) -> (r: Option<&'a XmlNode>)
        ensures
            match r {
                Some(c) => self.spec_descend2(name@, inner@) == Some(*c),
                None => self.spec_descend2(name@, inner@) is None,
            },
    {
        match self.get_child(name) {
            Some(c) => c.get_child(inner),
            None => None,
        }
    }
}

/// The first element of `s` named `name`, scanning front to back.
pub open spec fn first_named(s: Seq<XmlNode>, name: Seq<char>) -> Option<XmlNode>
    decreases s.len(),
{
    if s.len() == 0 {
        None
    } else if s[0].name@ == name {
        Some(s[0])
    } else {
        first_named(s.drop_first(), name)
    }
}

/// Scanning past a prefix with no matching name does not change the result.
pub proof fn lemma_first_named_skip(s: Seq<XmlNode>, name: Seq<char>, i: int)
    requires
        0 <= i <= s.len(),
        forall|j: int| 0 <= j < i ==> s[j].name@ != name,
    ensures
        first_named(s, name) == if i < s.len() && s[i].name@ == name {
            Some(s[i])
        } else {
            first_named(s.skip(i), name)
        },
    decreases i,
{
    if i == 0 {
        assert(s.skip(0) =~= s);
    } else {
        lemma_first_named_skip(s.drop_first(), name, i - 1);
        assert(s.drop_first().skip(i - 1) =~= s.skip(i));
    }
}

/// Character-by-character string equality, decided without trusting any
/// outside comparison.
pub fn str_eq(a: &str, b: &str) -> (r: bool)
    ensures
        r == (a@ == b@),
{
    let alen = a.unicode_len();
    let blen = b.unicode_len();
    if alen != blen {
        return false;
    }
    let mut i: usize = 0;
    while i < alen
        invariant
            alen == a@.len(),
            alen == b@.len(),
            i <= alen,
            forall|j: int| 0 <= j < i ==> a@[j] == b@[j],
        decreases alen - i,
    {
        if a.get_char(i) != b.get_char(i) {
            return false;
        }
        i = i + 1;
    }
    proof {
        assert(a@ =~= b@);
    }
    true
}

} // verus!
