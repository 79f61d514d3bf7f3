//! A decoded extension value presented as a two-field record: first `type`
//! (the discriminator), then `data` (the payload).
use vstd::prelude::*;
use crate::error::Error;

verus! {

/// The value handed out for one field of an extension record.
#[derive(Debug, Clone, PartialEq, Eq)]
pub enum ExtField {
    Type(i8),
    Data(Vec<u8>),
}

/// The field name offered at a stage: `type`, then `data`, then none.
pub open spec fn ext_key_at(stage: nat) -> Option<Seq<char>> {
    if stage == 0 {
        Some("type"@)
    } else if stage == 1 {
        Some("data"@)
    } else {
        None
    }
}

/// The stage after a value is requested.
pub open spec fn ext_after(stage: nat) -> nat {
    if stage < 2 {
        stage + 1
    } else {
        2
    }
}

/// A value request at this stage fails with `EndOfStream`.
pub open spec fn ext_value_fails(stage: nat) -> bool {
    stage >= 2
}

/// Walks a decoded extension value as a record of two fields.
pub struct ExtVisitor {
    state: u8,
    ty: i8,
    data: Vec<u8>,
}

impl ExtVisitor {
    pub closed spec fn stage(&self) -> nat {
        self.state as nat
    }

    pub closed spec fn ty(&self) -> i8 {
        self.ty
    }

    pub closed spec fn data(&self) -> Seq<u8> {
        self.data@
    }

    pub open spec fn wf(&self) -> bool {
        self.stage() <= 2
    }

    pub fn new(ty: i8, data: Vec<u8>) -> (v: ExtVisitor)
        ensures
            v.wf(),
            v.stage() == 0,
            v.ty() == ty,
            v.data() == data@,
    {
        ExtVisitor { state: 0, ty: ty, data: data }
    }

    /// The name of the next field, or `None` once both were visited.
    pub fn next_key(&self) -> (r: Option<&'static str>)
        ensures
            match ext_key_at(self.stage()) {
                Some(k) => r matches Some(s) && s@ == k,
                None => r is None,
            },
    {
        if self.state == 0 {
            Some("type")
        } else if self.state == 1 {
            Some("data")
        } else {
            None
        }
    }

    /// The value of the field whose name was offered last; moves to the next field.
    pub fn next_value(&mut self) -> (r: Result<ExtField, Error>)
        requires
            old(self).wf(),
        ensures
            final(self).wf(),
            final(self).stage() == ext_after(old(self).stage()),
            final(self).ty() == old(self).ty(),
            final(self).data() == old(self).data(),
            old(self).stage() == 0 ==> r == Ok::<ExtField, Error>(ExtField::Type(old(self).ty())),
            old(self).stage() == 1 ==> (r matches Ok(ExtField::Data(d)) && d@ == old(self).data()),
            ext_value_fails(old(self).stage()) ==> r == Err::<ExtField, Error>(Error::EndOfStream),
    {
        if self.state == 0 {
            self.state = 1;
            Ok(ExtField::Type(self.ty))
        } else if self.state == 1 {
            self.state = 2;
            let mut d: Vec<u8> = Vec::new();
            let mut i: usize = 0;
            while i < self.data.len()
                invariant
                    i <= self.data@.len(),
                    d@ == self.data@.subrange(0, i as int),
                decreases self.data@.len() - i,
            {
                d.push(self.data[i]);
                i = i + 1;
                assert(d@ =~= self.data@.subrange(0, i as int));
            }
            assert(d@ =~= self.data@);
            Ok(ExtField::Data(d))
        } else {
            Err(Error::EndOfStream)
        }
    }

    /// How many fields are left to visit.
    pub fn size_hint(&self) -> (r: Option<usize>)
        requires
            self.wf(),
        ensures
            r == Some((2 - self.stage()) as usize),
    {
        Some(2 - self.state as usize)
    }
}

/// From a fresh adaptor the fields come as `type`, then `data`, then none,
/// and a third value request fails with `EndOfStream`.
pub proof fn lemma_ext_field_order()
    ensures
        ext_key_at(0) == Some("type"@),
        ext_key_at(ext_after(0)) == Some("data"@),
        ext_key_at(ext_after(ext_after(0))) is None,
        !ext_value_fails(0),
        !ext_value_fails(ext_after(0)),
        ext_value_fails(ext_after(ext_after(0))),
{
}

} // verus!
