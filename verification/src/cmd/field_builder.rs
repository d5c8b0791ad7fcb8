//! A cursor over a request's arguments, handing out one field at a time.

use vstd::prelude::*;
use vstd::string::{StrSliceExecFns, StringSliceAdditionalSpecFns};

verus! {

/// Why a command record could not be built from a request.
pub enum BuildError {
    /// The request has the wrong number of arguments.
    Arity,
    /// An argument that must be an integer is not one, or is out of range.
    BadInteger,
}

/// The detail text of each build fault.
pub open spec fn spec_build_error_message(e: BuildError) -> Seq<u8> {
    match e {
        BuildError::Arity => "wrong number of arguments".spec_bytes(),
        BuildError::BadInteger => "value is not an integer or out of range".spec_bytes(),
    }
}

impl BuildError {
    /// The detail text used in protocol error replies.
    pub fn message(&self) -> (r: Vec<u8>)
        ensures
            r@ == spec_build_error_message(*self),
    {
        match self {
            BuildError::Arity => "wrong number of arguments".as_bytes_vec(),
            BuildError::BadInteger => "value is not an integer or out of range".as_bytes_vec(),
        }
    }
}

/// A cursor over a request's bulk strings.
pub struct FieldBuilder {
    bulks: Vec<Vec<u8>>,
    pos: usize,
}

impl FieldBuilder {
    /// The arguments not yet handed out.
    pub closed spec fn view(&self) -> Seq<Seq<u8>> {
        self.bulks@.map_values(|v: Vec<u8>| v@).skip(self.pos as int)
    }

    /// The cursor never points past the end.
    pub closed spec fn wf(&self) -> bool {
        self.pos <= self.bulks@.len()
    }

    /// A cursor over `bulks`, starting at position `start`.
    pub fn new(bulks: Vec<Vec<u8>>, start: usize) -> (r: FieldBuilder)
        requires
            start <= bulks@.len(),
        ensures
            r.wf(),
            r@ == bulks@.map_values(|v: Vec<u8>| v@).skip(start as int),
    {
        FieldBuilder { bulks, pos: start }
    }

    /// How many arguments are left.
    pub fn get_total(&self) -> (r: usize)
        requires
            self.wf(),
        ensures
            r == self@.len(),
    {
        self.bulks.len() - self.pos
    }

    /// The next argument; an arity error when none is left.
    pub fn get_field(&mut self) -> (r: Result<Vec<u8>, BuildError>)
        requires
            old(self).wf(),
        ensures
            final(self).wf(),
            match r {
                Ok(v) => old(self)@.len() > 0 && v@ == old(self)@[0] && final(self)@ == old(
                    self,
                )@.skip(1),
                Err(_) => old(self)@.len() == 0 && final(self)@ == old(self)@,
            },
    {
        if self.pos < self.bulks.len() {
            let v = crate::util::copy_bytes(&self.bulks[self.pos]);
            self.pos = self.pos + 1;
            proof {
                assert(self@ =~= old(self)@.skip(1));
            }
            Ok(v)
        } else {
            Err(BuildError::Arity)
        }
    }

    /// The next argument, if one is left.
    pub fn get_field_option(&mut self) -> (r: Option<Vec<u8>>)
        requires
            old(self).wf(),
        ensures
            final(self).wf(),
            match r {
                Some(v) => old(self)@.len() > 0 && v@ == old(self)@[0] && final(self)@ == old(
                    self,
                )@.skip(1),
                None => old(self)@.len() == 0 && final(self)@ == old(self)@,
            },
    {
        if self.pos < self.bulks.len() {
            match self.get_field() {
                Ok(v) => Some(v),
                Err(_) => None,
            }
        } else {
            None
        }
    }

    /// Every remaining argument, in order.
    pub fn take_rest(&mut self) -> (r: Vec<Vec<u8>>)
        requires
            old(self).wf(),
        ensures
            final(self).wf(),
            r@.map_values(|v: Vec<u8>| v@) == old(self)@,
            final(self)@.len() == 0,
    {
        let ghost args = self@;
        let mut out: Vec<Vec<u8>> = Vec::new();
        proof {
            assert(args.skip(0) =~= args);
            assert(out@.map_values(|v: Vec<u8>| v@) =~= Seq::<Seq<u8>>::empty());
        }
        while self.pos < self.bulks.len()
            invariant
                self.wf(),
                out@.len() <= args.len(),
                self@ == args.skip(out@.len() as int),
                out@.map_values(|v: Vec<u8>| v@) == args.take(out@.len() as int),
            decreases self@.len(),
        {
            let ghost n = out@.len() as int;
            match self.get_field() {
                Ok(v) => {
                    let ghost gv = v@;
                    out.push(v);
                    proof {
                        assert(gv == args[n]);
                        assert(out@.map_values(|v: Vec<u8>| v@) =~= args.take(n).push(args[n]));
                        assert(args.take(n).push(args[n]) =~= args.take(n + 1));
                        assert(args.skip(n).skip(1) =~= args.skip(n + 1));
                    }
                },
                Err(_) => {
                    proof {
                        assert(false);
                    }
                },
            }
        }
        proof {
            assert(args.take(args.len() as int) =~= args);
        }
        out
    }
}

} // verus!
