use vstd::prelude::*;
use vstd::string::StringExecFns;
use vstd::utf8::encode_utf8;

verus! {

/// An owned text value with value semantics: an independent buffer per value,
/// equality by content, no participation in the intern table.
#[derive(Debug)]
pub struct GodotString {
    pub text: String,
}

impl View for GodotString {
    type V = Seq<char>;

    open spec fn view(&self) -> Seq<char> {
        self.text@
    }
}

impl DeepView for GodotString {
    type V = Seq<char>;

    open spec fn deep_view(&self) -> Seq<char> {
        self.text@
    }
}

impl GodotString {
    /// An empty text value.
    pub fn new() -> (r: GodotString)
        ensures
            r@ === Seq::<char>::empty(),
    {
        GodotString { text: String::new() }
    }

    /// An owned text value holding the given content.
    pub fn from_str(s: &str) -> (r: GodotString)
        ensures
            r@ == s@,
    {
        GodotString { text: String::from_str(s) }
    }

    /// Borrows the content.
    pub fn as_str(&self) -> (r: &str)
        ensures
            r@ == self@,
    {
        self.text.as_str()
    }

    /// Length of the content in bytes of its canonical encoding.
    pub fn byte_len(&self) -> (r: usize)
        ensures
            r == encode_utf8(self@).len() as usize,
    {
        self.text.as_str().len()
    }
}

impl Clone for GodotString {
    fn clone(&self) -> (r: Self)
        ensures
            r@ == self@,
    {
        GodotString { text: self.text.clone() }
    }
}

impl PartialEq for GodotString {
    fn eq(&self, other: &Self) -> bool {
        self.text == other.text
    }
}

impl vstd::std_specs::cmp::PartialEqSpecImpl for GodotString {
    open spec fn obeys_eq_spec() -> bool {
        true
    }

    open spec fn eq_spec(&self, other: &Self) -> bool {
        self@ == other@
    }
}

} // verus!
