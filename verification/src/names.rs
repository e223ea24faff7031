use vstd::prelude::*;

verus! {

/// The name of a company, the key under which its positions are filed.
///
/// Names compare by exact text: case and whitespace are significant, and
/// no normalization is ever applied.
#[derive(Debug, Hash)]
pub struct CompanyName {
    pub name: String,
}

impl View for CompanyName {
    type V = Seq<char>;

    open spec fn view(&self) -> Seq<char> {
        self.name@
    }
}

impl CompanyName {
    pub fn as_str(&self) -> (r: &str)
        ensures
            r@ == self@,
    {
        self.name.as_str()
    }
}

impl Clone for CompanyName {
    fn clone(&self) -> (r: Self)
        ensures
            r@ == self@,
    {
        CompanyName { name: self.name.clone() }
    }
}

impl PartialEq for CompanyName {
    fn eq(&self, other: &Self) -> bool {
        self.name == other.name
    }
}

impl vstd::std_specs::cmp::PartialEqSpecImpl for CompanyName {
    open spec fn obeys_eq_spec() -> bool {
        true
    }

    open spec fn eq_spec(&self, other: &Self) -> bool {
        self@ == other@
    }
}

impl From<String> for CompanyName {
    fn from(name: String) -> Self {
        CompanyName { name }
    }
}

impl vstd::std_specs::convert::FromSpecImpl<String> for CompanyName {
    open spec fn obeys_from_spec() -> bool {
        true
    }

    open spec fn from_spec(name: String) -> Self {
        CompanyName { name }
    }
}

/// The name of one interview round within a single lead.
///
/// Same semantics as [`CompanyName`], but scoped to one lead; two rounds of
/// one lead may even carry the same name, as interview identity is
/// positional.
#[derive(Debug, Hash)]
pub struct InterviewName {
    pub name: String,
}

impl View for InterviewName {
    type V = Seq<char>;

    open spec fn view(&self) -> Seq<char> {
        self.name@
    }
}

impl InterviewName {
    pub fn as_str(&self) -> (r: &str)
        ensures
            r@ == self@,
    {
        self.name.as_str()
    }
}

impl Clone for InterviewName {
    fn clone(&self) -> (r: Self)
        ensures
            r@ == self@,
    {
        InterviewName { name: self.name.clone() }
    }
}

impl PartialEq for InterviewName {
    fn eq(&self, other: &Self) -> bool {
        self.name == other.name
    }
}

impl vstd::std_specs::cmp::PartialEqSpecImpl for InterviewName {
    open spec fn obeys_eq_spec() -> bool {
        true
    }

    open spec fn eq_spec(&self, other: &Self) -> bool {
        self@ == other@
    }
}

impl From<String> for InterviewName {
    fn from(name: String) -> Self {
        InterviewName { name }
    }
}

impl vstd::std_specs::convert::FromSpecImpl<String> for InterviewName {
    open spec fn obeys_from_spec() -> bool {
        true
    }

    open spec fn from_spec(name: String) -> Self {
        InterviewName { name }
    }
}

} // verus!
