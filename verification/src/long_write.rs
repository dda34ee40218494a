use vstd::prelude::*;

verus! {

/// Capacity of the long-write buffer, in bytes.
pub const LONG_WRITE_CAPACITY: usize = 1024;

/// `heapless::CapacityError`, what a full `heapless::Vec` answers; opaque here.
#[verifier::external_type_specification]
#[verifier::external_body]
pub struct ExCapacityError(heapless::CapacityError);

/// The fixed-capacity byte buffer that collects long-write fragments (a
/// `heapless::Vec<u8, 1024>`).
#[verifier::external_body]
pub struct FragmentBuffer {
    inner: heapless::Vec<u8, 1024>,
}

/// The bytes held by a fragment buffer, in order.
pub uninterp spec fn fragment_bytes(b: FragmentBuffer) -> Seq<u8>;

/// `heapless::Vec::new`: an empty buffer.
#[verifier::external_body]
fn fragments_new() -> (b: FragmentBuffer)
    ensures
        fragment_bytes(b) == Seq::<u8>::empty(),
{
    FragmentBuffer { inner: heapless::Vec::new() }
}

/// Length of the buffer (`len` of the slice that `heapless::Vec` dereferences to).
#[verifier::external_body]
fn fragments_len(b: &FragmentBuffer) -> (n: usize)
    ensures
        n == fragment_bytes(*b).len(),
{
    b.inner.len()
}

/// `heapless::Vec::extend_from_slice`: when the bytes fit within the capacity they are
/// appended; otherwise the buffer is left as it was and `CapacityError` comes back.
#[verifier::external_body]
fn fragments_extend(b: &mut FragmentBuffer, data: &[u8]) -> (r: Result<(), heapless::CapacityError>)
    ensures
        fragment_bytes(*old(b)).len() + data@.len() <= LONG_WRITE_CAPACITY ==> r is Ok
            && fragment_bytes(*final(b)) == fragment_bytes(*old(b)) + data@,
        fragment_bytes(*old(b)).len() + data@.len() > LONG_WRITE_CAPACITY ==> r is Err
            && fragment_bytes(*final(b)) == fragment_bytes(*old(b)),
{
    b.inner.extend_from_slice(data)
}

/// `heapless::Vec::clear`: the buffer becomes empty.
#[verifier::external_body]
fn fragments_clear(b: &mut FragmentBuffer)
    ensures
        fragment_bytes(*final(b)) == Seq::<u8>::empty(),
{
    b.inner.clear()
}

/// `heapless::Vec::as_slice`: the bytes held.
#[verifier::external_body]
fn fragments_as_slice(b: &FragmentBuffer) -> (s: &[u8])
    ensures
        s@ == fragment_bytes(*b),
{
    b.inner.as_slice()
}

/// A value written to a characteristic: a short write carries the decoded value, a long
/// (prepared) write the raw bytes and the attribute handle.
pub enum GenericWrite<'a, D> {
    Short(D),
    Long { data: &'a [u8], handle: u16 },
}

#[derive(Clone, Copy, Debug, PartialEq, Eq, Structural)]
pub enum LongWriteError {
    UnexpectedHandle,
    IncorrectLength,
}

impl LongWriteError {
    /// The error's name, as it is displayed.
    pub fn name(&self) -> (s: &'static str)
        ensures
            *self == LongWriteError::UnexpectedHandle ==> s@ == "UnexpectedHandle"@,
            *self == LongWriteError::IncorrectLength ==> s@ == "IncorrectLength"@,
    {
        match self {
            Self::UnexpectedHandle => "UnexpectedHandle",
            Self::IncorrectLength => "IncorrectLength",
        }
    }
}

/// Outcome of one prepare-write fragment on a state of bytes `bytes` and handle `expected`:
/// the result, the bytes afterwards and the expected handle afterwards.
pub open spec fn prepare_outcome(
    bytes: Seq<u8>,
    expected: Option<u16>,
    handle: u16,
    offset: usize,
    data: Seq<u8>,
) -> (Result<(), LongWriteError>, Seq<u8>, Option<u16>) {
    let expected2 = if expected is None { Some(handle) } else { expected };
    if expected2 != Some(handle) {
        (Err(LongWriteError::UnexpectedHandle), bytes, expected2)
    } else if offset != bytes.len() {
        (Err(LongWriteError::IncorrectLength), bytes, expected2)
    } else if bytes.len() + data.len() > LONG_WRITE_CAPACITY {
        (Err(LongWriteError::IncorrectLength), bytes, expected2)
    } else {
        (Ok(()), bytes + data, expected2)
    }
}

/// Collects the fragments of a long (prepared) write to one attribute.
pub struct LongWriteAccumulator {
    buf: FragmentBuffer,
    expected_handle: Option<u16>,
}

/// Per-connection state of the GATT event handling.
pub struct ConnectionContext {
    pub long_write: LongWriteAccumulator,
}

impl LongWriteAccumulator {
    /// The bytes collected so far.
    pub closed spec fn bytes(&self) -> Seq<u8> {
        fragment_bytes(self.buf)
    }

    /// The handle that the fragments belong to, once the first has come.
    pub closed spec fn expected(&self) -> Option<u16> {
        self.expected_handle
    }

    pub fn new() -> (s: Self)
        ensures
            s.bytes() == Seq::<u8>::empty(),
            s.expected() is None,
    {
        Self { buf: fragments_new(), expected_handle: None }
    }

    /// Adds the fragment `data` written at `offset` of attribute `handle`. The first fragment
    /// fixes the handle; fragments must come in order, with no gap, and fit in the buffer.
    pub fn prepare(&mut self, handle: u16, offset: usize, data: &[u8]) -> (r: Result<(), LongWriteError>)
        ensures
            (r, final(self).bytes(), final(self).expected()) == prepare_outcome(
                old(self).bytes(),
                old(self).expected(),
                handle,
                offset,
                data@,
            ),
    {
        // First fragment
        if self.expected_handle.is_none() {
            self.expected_handle = Some(handle);
        }
        let matches = match self.expected_handle {
            Some(h) => h == handle,
            None => false,
        };
        if !matches {
            return Err(LongWriteError::UnexpectedHandle);
        }
        if offset != fragments_len(&self.buf) {
            return Err(LongWriteError::IncorrectLength);  // enforce strict ordering
        }
        match fragments_extend(&mut self.buf, data) {
            Ok(()) => Ok(()),
            Err(_) => Err(LongWriteError::IncorrectLength),
        }
    }

    /// The collected bytes and the handle they were written to.
    pub fn execute(&self) -> (r: (&[u8], u16))
        requires
            self.expected() is Some,
        ensures
            r.0@ == self.bytes(),
            Some(r.1) == self.expected(),
    {
        let result = fragments_as_slice(&self.buf);
        let handle = match self.expected_handle {
            Some(h) => h,
            None => 0,
        };
        (result, handle)
    }

    /// Drops the collected bytes and forgets the handle.
    pub fn reset(&mut self)
        ensures
            final(self).bytes() == Seq::<u8>::empty(),
            final(self).expected() is None,
    {
        fragments_clear(&mut self.buf);
        self.expected_handle = None;
    }
}

impl Default for LongWriteAccumulator {
    fn default() -> (s: Self)
        ensures
            s.bytes() == Seq::<u8>::empty(),
            s.expected() is None,
    {
        Self::new()
    }
}

/// All fragments, one after the other.
pub open spec fn joined(frags: Seq<Seq<u8>>) -> Seq<u8>
    decreases frags.len(),
{
    if frags.len() == 0 {
        Seq::empty()
    } else {
        joined(frags.drop_last()) + frags.last()
    }
}

/// A fresh long write after the fragments `frags` of attribute `handle` were prepared one after
/// the other, each at the offset where the ones before it end: the bytes collected, the
/// expected handle, and whether every fragment was accepted.
pub open spec fn prepare_in_order(frags: Seq<Seq<u8>>, handle: u16) -> (Seq<u8>, Option<u16>, bool)
    decreases frags.len(),
{
    if frags.len() == 0 {
        (Seq::empty(), None, true)
    } else {
        let (b, h, ok) = prepare_in_order(frags.drop_last(), handle);
        let o = prepare_outcome(b, h, handle, b.len() as usize, frags.last());
        (o.1, o.2, ok && o.0 is Ok)
    }
}

/// Fragments that arrive in order for one handle and fit in the buffer are all accepted, and
/// what the long write then holds, for that handle, is their concatenation.
pub proof fn in_order_fragments_join(frags: Seq<Seq<u8>>, handle: u16)
    requires
        joined(frags).len() <= LONG_WRITE_CAPACITY,
    ensures
        prepare_in_order(frags, handle).0 == joined(frags),
        prepare_in_order(frags, handle).2,
        frags.len() > 0 ==> prepare_in_order(frags, handle).1 == Some(handle),
    decreases frags.len(),
{
    if frags.len() > 0 {
        let init = frags.drop_last();
        assert(joined(frags) == joined(init) + frags.last());
        in_order_fragments_join(init, handle);
        if init.len() == 0 {
            assert(prepare_in_order(init, handle).1 is None);
        }
    }
}

/// A rejected fragment leaves the collected bytes as they were.
pub proof fn rejected_fragment_keeps_bytes(
    bytes: Seq<u8>,
    expected: Option<u16>,
    handle: u16,
    offset: usize,
    data: Seq<u8>,
)
    ensures
        prepare_outcome(bytes, expected, handle, offset, data).0 is Err ==> prepare_outcome(
            bytes,
            expected,
            handle,
            offset,
            data,
        ).1 == bytes,
{
}

/// A fragment for another handle than the one that the long write started with is refused.
pub proof fn other_handle_refused(bytes: Seq<u8>, first: u16, handle: u16, offset: usize, data: Seq<u8>)
    requires
        first != handle,
    ensures
        prepare_outcome(bytes, Some(first), handle, offset, data).0 == Err::<(), LongWriteError>(
            LongWriteError::UnexpectedHandle,
        ),
{
}


/// The first fragment fixes the handle of a long write, and no later fragment changes it until
/// the long write is reset: whatever fragment comes, the handle stays the one fixed, a fragment
/// for another handle is refused and leaves the bytes as they were, and a fragment on a fresh
/// long write fixes its own handle.
pub proof fn handle_fixed_until_reset(bytes: Seq<u8>, expected: Option<u16>, handle: u16, offset: usize, data: Seq<u8>)
    ensures
        expected matches Some(h) ==> prepare_outcome(bytes, expected, handle, offset, data).2 == Some(h),
        expected matches Some(h) && h != handle ==> prepare_outcome(bytes, expected, handle, offset, data).0 is Err
            && prepare_outcome(bytes, expected, handle, offset, data).1 == bytes,
        expected is None ==> prepare_outcome(bytes, expected, handle, offset, data).2 == Some(handle),
        prepare_outcome(bytes, expected, handle, offset, data).0 is Ok ==> prepare_outcome(
            bytes,
            expected,
            handle,
            offset,
            data,
        ).1 == bytes + data && offset == bytes.len() && (expected is None || expected == Some(handle)),
{
}

} // verus!
