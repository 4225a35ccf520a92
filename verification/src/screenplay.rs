//! The screenplay document: title and author metadata, the ordered sequence
//! of elements, and the modified flag that tracks unsaved changes.

use vstd::prelude::*;
use crate::element::{Element, ElementType, ElementView};
use crate::text::{chars_to_string, str_to_chars};

verus! {

/// The mathematical contents of the element sequence.
pub open spec fn elems_view(v: Seq<Element>) -> Seq<ElementView> {
    v.map_values(|e: Element| e@)
}

/// The file name component of a path: the text after the last `/`. The
/// empty name and the relative components `.` and `..` do not name a file.
pub open spec fn file_name_of(p: Seq<char>) -> Seq<char>
    decreases p.len(),
{
    if p.len() == 0 {
        p
    } else if p[p.len() - 1] == '/' {
        Seq::<char>::empty()
    } else {
        file_name_of(p.drop_last()).push(p[p.len() - 1])
    }
}

/// What `display_name` returns: the file name component of the file path
/// when one is set and names a file, the title otherwise.
pub open spec fn display_name_spec(sp: Screenplay) -> Seq<char> {
    match sp.file_path {
        Option::None => sp.title@,
        Option::Some(p) => {
            let n = file_name_of(p@);
            if n.len() == 0 || n == seq!['.'] || n == seq!['.', '.'] {
                sp.title@
            } else {
                n
            }
        },
    }
}

/// A screenplay document. The element sequence is exclusively owned by the
/// document; `file_path` and `modified` are transient editing state and are
/// never part of the serialized form.
#[derive(Debug, Clone)]
pub struct Screenplay {
    pub title: String,
    pub author: Option<String>,
    pub contact: Option<String>,
    pub elements: Vec<Element>,
    pub file_path: Option<String>,
    pub modified: bool,
}

impl Screenplay {
    pub fn new(title: String) -> (sp: Screenplay)
        ensures
            sp.title@ == title@,
            sp.author is None,
            sp.contact is None,
            sp.elements@.len() == 0,
            sp.file_path is None,
            !sp.modified,
    {
        Screenplay {
            title,
            author: None,
            contact: None,
            elements: Vec::new(),
            file_path: None,
            modified: false,
        }
    }

    pub fn empty() -> (sp: Screenplay)
        ensures
            sp.title@ == "Untitled"@,
            sp.author is None,
            sp.contact is None,
            sp.elements@.len() == 0,
            sp.file_path is None,
            !sp.modified,
    {
        Screenplay::new(String::from_str("Untitled"))
    }

    pub fn element_count(&self) -> (r: usize)
        ensures
            r == self.elements@.len(),
    {
        self.elements.len()
    }

    pub fn is_empty(&self) -> (r: bool)
        ensures
            r == (self.elements@.len() == 0),
    {
        self.elements.is_empty()
    }

    /// Appends the element and marks the document modified.
    pub fn add_element(&mut self, element: Element)
        ensures
            final(self).elements@ == old(self).elements@.push(element),
            final(self).modified,
            final(self).title == old(self).title,
            final(self).author == old(self).author,
            final(self).contact == old(self).contact,
            final(self).file_path == old(self).file_path,
    {
        self.elements.push(element);
        self.mark_modified();
    }

    /// Inserts the element at `index` and marks the document modified when
    /// `index <= len`; does nothing otherwise.
    pub fn insert_element(&mut self, index: usize, element: Element)
        ensures
            index <= old(self).elements@.len() ==> final(self).elements@ == old(self).elements@
                .insert(index as int, element) && final(self).modified,
            index > old(self).elements@.len() ==> *final(self) == *old(self),
            final(self).title == old(self).title,
            final(self).author == old(self).author,
            final(self).contact == old(self).contact,
            final(self).file_path == old(self).file_path,
    {
        if index <= self.elements.len() {
            self.elements.insert(index, element);
            self.mark_modified();
        }
    }

    /// Removes and returns the element at `index` and marks the document
    /// modified when `index < len`; returns `None` and leaves the document
    /// untouched otherwise.
    pub fn remove_element(&mut self, index: usize) -> (r: Option<Element>)
        ensures
            index < old(self).elements@.len() ==> r == Some(old(self).elements@[index as int])
                && final(self).elements@ == old(self).elements@.remove(index as int)
                && final(self).modified,
            index >= old(self).elements@.len() ==> r is None && *final(self) == *old(self),
            final(self).title == old(self).title,
            final(self).author == old(self).author,
            final(self).contact == old(self).contact,
            final(self).file_path == old(self).file_path,
    {
        if index < self.elements.len() {
            self.mark_modified();
            Some(self.elements.remove(index))
        } else {
            None
        }
    }

    pub fn get_element(&self, index: usize) -> (r: Option<&Element>)
        ensures
            index < self.elements@.len() ==> (r matches Some(e) && *e == self.elements@[
                index as int
            ]),
            index >= self.elements@.len() ==> r is None,
    {
        if index < self.elements.len() {
            Some(&self.elements[index])
        } else {
            None
        }
    }

    /// A mutable borrow of the element at `index`; the document is marked
    /// modified as soon as the borrow is handed out.
    pub fn get_element_mut(&mut self, index: usize) -> (r: Option<&mut Element>)
        ensures
            index < old(self).elements@.len() ==> (r matches Some(e)
                && *e == old(self).elements@[index as int]
                && final(self).elements@ == old(self).elements@.update(index as int, *final(e))
                && final(self).modified),
            index >= old(self).elements@.len() ==> r is None && *final(self) == *old(self),
            final(self).title == old(self).title,
            final(self).author == old(self).author,
            final(self).contact == old(self).contact,
            final(self).file_path == old(self).file_path,
    {
        if index < self.elements.len() {
            self.mark_modified();
            Some(&mut self.elements[index])
        } else {
            None
        }
    }

    pub fn mark_modified(&mut self)
        ensures
            *final(self) == (Screenplay { modified: true, ..*old(self) }),
    {
        self.modified = true;
    }

    pub fn mark_saved(&mut self)
        ensures
            *final(self) == (Screenplay { modified: false, ..*old(self) }),
    {
        self.modified = false;
    }

    /// The name shown for the document: the file name component of its file
    /// path when one is set, its title otherwise.
    pub fn display_name(&self) -> (r: String)
        ensures
            r@ == display_name_spec(*self),
    {
        match &self.file_path {
            None => self.title.clone(),
            Some(p) => {
                let chars = str_to_chars(p.as_str());
                let mut name: Vec<char> = Vec::new();
                let mut k: usize = 0;
                while k < chars.len()
                    invariant
                        k <= chars@.len(),
                        name@ == file_name_of(chars@.subrange(0, k as int)),
                    decreases chars@.len() - k,
                {
                    proof {
                        assert(chars@.subrange(0, k + 1).drop_last() =~= chars@.subrange(
                            0,
                            k as int,
                        ));
                    }
                    if chars[k] == '/' {
                        name = Vec::new();
                    } else {
                        name.push(chars[k]);
                    }
                    k += 1;
                }
                proof {
                    assert(chars@.subrange(0, chars@.len() as int) =~= chars@);
                }
                let fallback = name.len() == 0 || (name.len() == 1 && name[0] == '.') || (
                name.len() == 2 && name[0] == '.' && name[1] == '.');
                proof {
                    if name@.len() == 1 && name@[0] == '.' {
                        assert(name@ =~= seq!['.']);
                    }
                    if name@.len() == 2 && name@[0] == '.' && name@[1] == '.' {
                        assert(name@ =~= seq!['.', '.']);
                    }
                    if name@ == seq!['.'] {
                        assert(name@.len() == 1 && name@[0] == '.');
                    }
                    if name@ == seq!['.', '.'] {
                        assert(name@.len() == 2 && name@[0] == '.' && name@[1] == '.');
                    }
                }
                if fallback {
                    self.title.clone()
                } else {
                    chars_to_string(&name)
                }
            },
        }
    }
}

impl Default for Screenplay {
    /// A fresh document is untitled and empty.
    fn default() -> (sp: Self)
        ensures
            sp.title@ == "Untitled"@,
            sp.author is None,
            sp.contact is None,
            sp.elements@.len() == 0,
            sp.file_path is None,
            !sp.modified,
    {
        Screenplay::empty()
    }
}

} // verus!
