//! Parsing fixed-length binary structures field by field.
//!
//! A [`BytesReader`] wraps the bytes still to be parsed; each read takes bytes from its
//! front and hands back a reader over the rest. Every read states how many bytes it
//! needs, and [`parse`] and [`try_parse`] demand that the parser consumes every byte.

pub mod byteorder;
pub mod reader;
pub mod structs;

use core::convert::Infallible;
use vstd::prelude::*;

verus! {

/// A reader over the bytes of a structure that are still to be parsed.
#[derive(Clone, Copy)]
pub struct BytesReader<'a> {
    bytes: &'a [u8],
}

impl<'a> View for BytesReader<'a> {
    type V = Seq<u8>;

    closed spec fn view(&self) -> Seq<u8> {
        self.bytes@
    }
}

impl<'a> BytesReader<'a> {
    /// A reader over all of `bytes`.
    pub fn new(bytes: &'a [u8]) -> (r: Self)
        ensures
            r@ == bytes@,
    {
        BytesReader { bytes }
    }

    /// The number of bytes left.
    pub fn len(&self) -> (n: usize)
        ensures
            n == self@.len(),
    {
        self.bytes.len()
    }

    /// Splits off the first `n` bytes of the reader; returns them with a reader over the
    /// rest.
    pub fn array_ref(self, n: usize) -> (r: (&'a [u8], BytesReader<'a>))
        requires
            n <= self@.len(),
        ensures
            r.0@ == self@.subrange(0, n as int),
            r.1@ == self@.subrange(n as int, self@.len() as int),
    {
        let (head, tail) = self.bytes.split_at(n);
        (head, BytesReader { bytes: tail })
    }

    /// Copies the first `n` bytes of the reader; returns them with a reader over the rest.
    pub fn array(self, n: usize) -> (r: (Vec<u8>, BytesReader<'a>))
        requires
            n <= self@.len(),
        ensures
            r.0@ == self@.subrange(0, n as int),
            r.1@ == self@.subrange(n as int, self@.len() as int),
    {
        let (head, rest) = self.array_ref(n);
        (vstd::slice::slice_to_vec(head), rest)
    }
}

/// Whether `f` parses `bytes` to `t`, consuming every byte.
pub open spec fn parses_to<'a, T, F: FnOnce(BytesReader<'a>) -> (T, BytesReader<'a>)>(
    f: F,
    bytes: Seq<u8>,
    t: T,
) -> bool {
    exists|r: BytesReader<'a>, rest: BytesReader<'a>|
        r@ == bytes && #[trigger] f.ensures((r,), (t, rest))
}

/// Parses `array` with `f`, which is handed a reader over all of it and must hand back a
/// reader with nothing left; returns what `f` parsed.
pub fn parse<'a, T, F: FnOnce(BytesReader<'a>) -> (T, BytesReader<'a>)>(
    array: &'a [u8],
    f: F,
) -> (t: T)
    requires
        forall|r: BytesReader<'a>| r@ == array@ ==> #[trigger] f.requires((r,)),
        forall|r: BytesReader<'a>, out: (T, BytesReader<'a>)|
            #[trigger] f.ensures((r,), out) ==> out.1@.len() == 0,
    ensures
        parses_to(f, array@, t),
{
    let reader = BytesReader::new(array);
    let (t, rest) = f(reader);
    assert(f.ensures((reader,), (t, rest)));
    t
}

/// Whether `f` parses `bytes` to `t` (consuming every byte) or fails with `t`'s error.
pub open spec fn try_parses_to<'a, T, E, F: FnOnce(BytesReader<'a>) -> Result<
    (T, BytesReader<'a>),
    E,
>>(f: F, bytes: Seq<u8>, t: Result<T, E>) -> bool {
    exists|r: BytesReader<'a>, out: Result<(T, BytesReader<'a>), E>|
        r@ == bytes && #[trigger] f.ensures((r,), out) && match out {
            Ok((v, _)) => t == Ok::<T, E>(v),
            Err(e) => t == Err::<T, E>(e),
        }
}

/// Parses `array` with `f`, which may fail partway; on success `f` must hand back a reader
/// with nothing left. Returns what `f` parsed, or its error.
pub fn try_parse<'a, T, E, F: FnOnce(BytesReader<'a>) -> Result<(T, BytesReader<'a>), E>>(
    array: &'a [u8],
    f: F,
) -> (t: Result<T, E>)
    requires
        forall|r: BytesReader<'a>| r@ == array@ ==> #[trigger] f.requires((r,)),
        forall|r: BytesReader<'a>, out: Result<(T, BytesReader<'a>), E>|
            #[trigger] f.ensures((r,), out) ==> (out matches Ok((_, rest)) ==> rest@.len() == 0),
    ensures
        try_parses_to(f, array@, t),
{
    let reader = BytesReader::new(array);
    let out = f(reader);
    assert(f.ensures((reader,), out));
    match out {
        Ok((t, _reader)) => Ok(t),
        Err(e) => Err(e),
    }
}

/// A structure that can be parsed from a fixed number of bytes.
pub trait BinaryParse: Sized {
    /// What the parse produces.
    type Output;

    /// The number of bytes the structure spans.
    spec fn spec_size() -> nat;

    /// What `bytes` parse to.
    spec fn spec_parse(bytes: Seq<u8>) -> Self::Output;

    /// The number of bytes the structure spans.
    fn size() -> (n: usize)
        ensures
            n == Self::spec_size(),
    ;

    /// Parses the structure from a reader over exactly its bytes, consuming them all.
    fn parse<'a>(r: BytesReader<'a>) -> (res: (Self::Output, BytesReader<'a>))
        requires
            r@.len() == Self::spec_size(),
        ensures
            res.0 == Self::spec_parse(r@),
            res.1@.len() == 0,
    ;

    /// Parses the structure from exactly its bytes.
    fn from_array(array: &[u8]) -> (res: Self::Output)
        requires
            array@.len() == Self::spec_size(),
        ensures
            res == Self::spec_parse(array@),
    {
        Self::parse(BytesReader::new(array)).0
    }
}

/// A structure that can be parsed from a fixed number of bytes, where parsing may fail.
pub trait BinaryTryParse: Sized {
    /// What the parse produces.
    type Output;

    /// Why the parse failed.
    type Error;

    /// The number of bytes the structure spans.
    spec fn spec_try_size() -> nat;

    /// What `bytes` parse to, or why they cannot be parsed.
    spec fn spec_try_parse(bytes: Seq<u8>) -> Result<Self::Output, Self::Error>;

    /// Parses the structure from a reader over exactly its bytes, consuming them all when
    /// it succeeds.
    fn try_parse<'a>(r: BytesReader<'a>) -> (res: Result<(Self::Output, BytesReader<'a>), Self::Error>)
        requires
            r@.len() == Self::spec_try_size(),
        ensures
            res matches Ok((_, rest)) ==> rest@.len() == 0,
            match res {
                Ok((v, _)) => Self::spec_try_parse(r@) == Ok::<Self::Output, Self::Error>(v),
                Err(e) => Self::spec_try_parse(r@) == Err::<Self::Output, Self::Error>(e),
            },
    ;

    /// Parses the structure from exactly its bytes.
    fn try_from_array(array: &[u8]) -> (res: Result<Self::Output, Self::Error>)
        requires
            array@.len() == Self::spec_try_size(),
        ensures
            res == Self::spec_try_parse(array@),
    {
        match Self::try_parse(BytesReader::new(array)) {
            Ok((t, _)) => Ok(t),
            Err(e) => Err(e),
        }
    }
}

impl<T: BinaryParse> BinaryTryParse for T {
    type Output = T::Output;

    type Error = Infallible;

    open spec fn spec_try_size() -> nat {
        T::spec_size()
    }

    open spec fn spec_try_parse(bytes: Seq<u8>) -> Result<Self::Output, Infallible> {
        Ok(T::spec_parse(bytes))
    }

    fn try_parse<'a>(r: BytesReader<'a>) -> (res: Result<(Self::Output, BytesReader<'a>), Infallible>)
        ensures
            res matches Ok((v, _)) && v == T::spec_parse(r@),
    {
        Ok(T::parse(r))
    }

    fn try_from_array(array: &[u8]) -> (res: Result<Self::Output, Infallible>)
        ensures
            res == Ok::<Self::Output, Infallible>(T::spec_parse(array@)),
    {
        Ok(T::from_array(array))
    }
}

} // verus!
