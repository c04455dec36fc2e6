//! The `sigTst` object that carries time stamps.
use vstd::prelude::*;
use vstd::slice::slice_to_vec;

verus! {

/// One time stamp.
#[derive(Clone, Debug, PartialEq, Eq)]
pub struct TstToken {
    pub val: Vec<u8>,
}

/// The time stamps of a signature.
#[derive(Clone, Debug, PartialEq, Eq)]
pub struct TstContainer {
    pub tst_tokens: Vec<TstToken>,
}

impl View for TstToken {
    type V = Seq<u8>;

    open spec fn view(&self) -> Seq<u8> {
        self.val@
    }
}

impl View for TstContainer {
    type V = Seq<Seq<u8>>;

    open spec fn view(&self) -> Seq<Seq<u8>> {
        self.tst_tokens@.map_values(|t: TstToken| t@)
    }
}

impl TstContainer {
    /// A container without time stamps.
    pub fn new() -> (res: Self)
        ensures
            res@ == Seq::<Seq<u8>>::empty(),
    {
        let res = TstContainer { tst_tokens: Vec::new() };
        assert(res@ =~= Seq::<Seq<u8>>::empty());
        res
    }

    /// Adds a time stamp behind those that are there.
    pub fn add_token(&mut self, token: TstToken)
        ensures
            final(self)@ == old(self)@.push(token@),
    {
        let ghost before = self@;
        self.tst_tokens.push(token);
        assert(self@ =~= before.push(token@));
    }
}

impl Default for TstContainer {
    fn default() -> (res: Self)
        ensures
            res@ == Seq::<Seq<u8>>::empty(),
    {
        Self::new()
    }
}

/// The container with the one time stamp `ts_data`.
pub fn make_cose_timestamp(ts_data: &[u8]) -> (res: TstContainer)
    ensures
        res@ == seq![ts_data@],
{
    let token = TstToken { val: slice_to_vec(ts_data) };
    let mut container = TstContainer::new();
    container.add_token(token);
    assert(container@ =~= seq![ts_data@]);
    container
}

} // verus!
