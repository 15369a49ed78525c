use vstd::prelude::*;
use vstd::slice::slice_to_vec;

verus! {

/// The ASCII decimal digits of `n`, most significant first, without leading zeros.
pub open spec fn decimal(n: nat) -> Seq<u8>
    decreases n,
{
    if n < 10 {
        seq![(48 + n) as u8]
    } else {
        decimal(n / 10).push((48 + n % 10) as u8)
    }
}

/// Appends the decimal digits of `n` to `out`.
pub fn push_decimal(n: usize, out: &mut Vec<u8>)
    ensures
        final(out)@ == old(out)@ + decimal(n as nat),
    decreases n,
{
    if n < 10 {
        out.push((48 + n) as u8);
        assert(final(out)@ =~= old(out)@ + decimal(n as nat));
    } else {
        push_decimal(n / 10, out);
        out.push((48 + n % 10) as u8);
        assert(final(out)@ =~= old(out)@ + decimal(n as nat));
    }
}

/// Appends a copy of each of `parts` to `v`, in order.
pub(crate) fn append_all(v: &mut Vec<Vec<u8>>, parts: &Vec<Vec<u8>>)
    ensures
        bytes_seq(final(v)@) == bytes_seq(old(v)@) + bytes_seq(parts@),
{
    let mut i: usize = 0;
    while i < parts.len()
        invariant
            i <= parts@.len(),
            bytes_seq(v@) == bytes_seq(old(v)@) + bytes_seq(parts@.subrange(0, i as int)),
        decreases parts@.len() - i,
    {
        let ghost prev = v@;
        v.push(slice_to_vec(parts[i].as_slice()));
        assert(bytes_seq(v@) =~= bytes_seq(prev).push(parts@[i as int]@));
        assert(bytes_seq(parts@.subrange(0, i + 1)) =~= bytes_seq(parts@.subrange(0, i as int)).push(parts@[i as int]@));
        i += 1;
    }
    assert(parts@.subrange(0, parts@.len() as int) =~= parts@);
}

/// A command for the server: its name and its positional arguments, each a
/// byte string, kept in the order in which they were added.
#[derive(Clone, Debug, PartialEq, Eq)]
pub struct Cmd {
    name: Vec<u8>,
    args: Vec<Vec<u8>>,
}

/// The contents of a list of byte strings.
pub open spec fn bytes_seq(v: Seq<Vec<u8>>) -> Seq<Seq<u8>> {
    v.map_values(|b: Vec<u8>| b@)
}

impl Cmd {
    /// The command's name.
    pub closed spec fn name(&self) -> Seq<u8> {
        self.name@
    }

    /// The command's arguments, in order.
    pub closed spec fn args(&self) -> Seq<Seq<u8>> {
        bytes_seq(self.args@)
    }

    /// Creates a command with the given name and no arguments.
    pub fn new(name: &[u8]) -> (r: Cmd)
        ensures
            r.name() == name@,
            r.args() == Seq::<Seq<u8>>::empty(),
    {
        let r = Cmd { name: slice_to_vec(name), args: Vec::new() };
        assert(r.args() =~= Seq::<Seq<u8>>::empty());
        r
    }

    /// Appends one argument.
    pub fn arg(&mut self, arg: &[u8])
        ensures
            final(self).name() == old(self).name(),
            final(self).args() == old(self).args().push(arg@),
    {
        self.args.push(slice_to_vec(arg));
        assert(final(self).args() =~= old(self).args().push(arg@));
    }

    /// Appends a number, written in decimal.
    pub fn arg_usize(&mut self, n: usize)
        ensures
            final(self).name() == old(self).name(),
            final(self).args() == old(self).args().push(decimal(n as nat)),
    {
        let mut digits: Vec<u8> = Vec::new();
        push_decimal(n, &mut digits);
        assert(digits@ =~= decimal(n as nat));
        self.args.push(digits);
        assert(final(self).args() =~= old(self).args().push(decimal(n as nat)));
    }

    /// Appends each of `args`, in order.
    pub fn arg_all(&mut self, args: &Vec<Vec<u8>>)
        ensures
            final(self).name() == old(self).name(),
            final(self).args() == old(self).args() + bytes_seq(args@),
    {
        append_all(&mut self.args, args);
    }

    /// The command's name, as bytes.
    pub fn get_name(&self) -> (r: &[u8])
        ensures
            r@ == self.name(),
    {
        self.name.as_slice()
    }

    /// The command's arguments, in order.
    pub fn get_args(&self) -> (r: &Vec<Vec<u8>>)
        ensures
            bytes_seq(r@) == self.args(),
    {
        &self.args
    }
}

} // verus!
