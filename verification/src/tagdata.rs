//! A raw tag: a non-empty ordered sequence of string tokens.
use vstd::prelude::*;
use crate::tagerror::TagError;

verus! {

/// A raw tag. The first token is the tag kind; the rest are its values.
#[derive(Debug, Hash)]
pub struct TagData {
    buf: Vec<String>,
}

impl View for TagData {
    type V = Seq<Seq<char>>;

    closed spec fn view(&self) -> Seq<Seq<char>> {
        self.buf.deep_view()
    }
}

impl DeepView for TagData {
    type V = Seq<Seq<char>>;

    open spec fn deep_view(&self) -> Seq<Seq<char>> {
        self.view()
    }
}

impl TagData {
    /// A tag always holds at least one token.
    #[verifier::type_invariant]
    closed spec fn type_inv(self) -> bool {
        self.buf@.len() >= 1
    }

    /// Promote a token list to a tag; reject the empty list.
    pub fn parse(tag: &[String]) -> (r: Result<TagData, TagError>)
        ensures
            match r {
                Ok(t) => tag@.len() > 0 && t@ == tag.deep_view(),
                Err(e) => tag@.len() == 0 && e == TagError::EmptyTag,
            },
    {
        if tag.len() == 0 {
            return Err(TagError::EmptyTag);
        }
        let n = tag.len();
        let mut buf: Vec<String> = Vec::new();
        let mut i: usize = 0;
        while i < n
            invariant
                n == tag@.len(),
                i <= n,
                buf@ =~= tag@.take(i as int),
            decreases n - i,
        {
            buf.push(tag[i].clone());
            proof {
                assert(buf@ =~= tag@.take(i + 1));
            }
            i += 1;
        }
        proof {
            assert(buf@ =~= tag@);
            assert forall|j: int| 0 <= j < tag@.len() implies buf.deep_view()[j]
                == tag.deep_view()[j] by {
                assert(buf.deep_view()[j] == buf@[j]@);
                assert(tag.deep_view()[j] == tag@[j]@);
            }
            assert(buf.deep_view() =~= tag.deep_view());
        }
        Ok(TagData { buf })
    }

    /// The tag kind: the first token. A tag is never empty, so this always
    /// answers.
    pub fn kind_str(&self) -> (r: Option<&str>)
        ensures
            self@.len() >= 1,
            r matches Some(s) && s@ == self@[0],
    {
        proof {
            use_type_invariant(self);
            assert(self.buf.deep_view()[0] == self.buf@[0]@);
        }
        Some(self.buf[0].as_str())
    }

    /// The first tag value (the token at index 1), if the tag carries one.
    pub fn content(&self) -> (r: Option<&str>)
        ensures
            match r {
                Some(s) => self@.len() >= 2 && s@ == self@[1],
                None => self@.len() < 2,
            },
    {
        proof {
            use_type_invariant(self);
        }
        if self.buf.len() >= 2 {
            proof {
                assert(self.buf.deep_view()[1] == self.buf@[1]@);
            }
            Some(self.buf[1].as_str())
        } else {
            None
        }
    }

    /// Borrow the token list.
    pub fn as_vec(&self) -> (r: &Vec<String>)
        ensures
            r.deep_view() == self@,
            self@.len() >= 1,
    {
        proof {
            use_type_invariant(self);
        }
        &self.buf
    }

    /// Consume the tag and keep its token list.
    pub fn to_vec(self) -> (r: Vec<String>)
        ensures
            r.deep_view() == self@,
            self@.len() >= 1,
    {
        proof {
            use_type_invariant(&self);
        }
        self.buf
    }
}

impl Clone for TagData {
    fn clone(&self) -> (r: TagData)
        ensures
            r@ == self@,
    {
        proof {
            use_type_invariant(self);
        }
        let v = self.as_vec();
        match TagData::parse(v.as_slice()) {
            Ok(t) => t,
            Err(_) => {
                proof {
                    assert(false);
                }
                TagData { buf: self.buf.clone() }
            },
        }
    }
}

impl PartialEq for TagData {
    fn eq(&self, other: &TagData) -> (r: bool) {
        let a = self.as_vec();
        let b = other.as_vec();
        if a.len() != b.len() {
            proof {
                assert(a.deep_view().len() == a@.len());
                assert(b.deep_view().len() == b@.len());
            }
            return false;
        }
        let n = a.len();
        let mut i: usize = 0;
        while i < n
            invariant
                n == a@.len() == b@.len(),
                i <= n,
                a.deep_view() == self@,
                b.deep_view() == other@,
                forall|j: int| 0 <= j < i ==> a.deep_view()[j] == b.deep_view()[j],
            decreases n - i,
        {
            proof {
                assert(a.deep_view()[i as int] == a@[i as int]@);
                assert(b.deep_view()[i as int] == b@[i as int]@);
            }
            if !crate::nostrbech32::str_eq_chars(a[i].as_str(), b[i].as_str()) {
                return false;
            }
            i += 1;
        }
        proof {
            assert(self@ =~= other@);
        }
        true
    }
}

impl vstd::std_specs::cmp::PartialEqSpecImpl for TagData {
    open spec fn obeys_eq_spec() -> bool {
        true
    }

    open spec fn eq_spec(&self, other: &TagData) -> bool {
        self@ == other@
    }
}

impl Eq for TagData {

}

} // verus!
