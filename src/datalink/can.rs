use vstd::prelude::*;

use std::time::Duration;

verus! {

#[verifier::external_type_specification]
#[verifier::external_body]
pub struct ExIoError(std::io::Error);

/// One CAN frame: arbitration id, up to 8 data bytes, and how many of them are used.
#[derive(Debug)]
pub struct Message {
    pub id: u32,
    pub data: [u8; 8],
    pub len: u8,
}

impl Default for Message {
    fn default() -> (r: Message)
        ensures
            r.id == 0,
            r.data@ == seq![0u8; 8],
            r.len == 0,
    {
        let r = Message { id: 0, data: [0; 8], len: 0 };
        assert(r.data@ =~= seq![0u8; 8]);
        r
    }
}

/// The upper-case hexadecimal digit for `d`, which is below 16.
pub open spec fn hex_digit(d: nat) -> char {
    seq!['0', '1', '2', '3', '4', '5', '6', '7', '8', '9', 'A', 'B', 'C', 'D', 'E', 'F'][d as int]
}

/// Upper-case hexadecimal digits of `n`, without leading zeros.
pub open spec fn hex_text(n: nat) -> Seq<char>
    decreases n,
{
    if n < 16 {
        seq![hex_digit(n)]
    } else {
        hex_text(n / 16) + seq![hex_digit(n % 16)]
    }
}

/// The bytes of `data` in hexadecimal, separated by single spaces.
pub open spec fn hex_list_text(data: Seq<u8>) -> Seq<char>
    decreases data.len(),
{
    if data.len() == 0 {
        Seq::empty()
    } else if data.len() == 1 {
        hex_text(data[0] as nat)
    } else {
        hex_list_text(data.drop_last()) + seq![' '] + hex_text(data.last() as nat)
    }
}

/// The text of a frame: `[ID] B0 B1 .. B7`, in upper-case hexadecimal.
pub open spec fn message_text(id: u32, data: Seq<u8>) -> Seq<char> {
    seq!['['] + hex_text(id as nat) + seq![']', ' '] + hex_list_text(data)
}

fn push_hex(out: &mut Vec<char>, n: u32)
    ensures
        final(out)@ == old(out)@ + hex_text(n as nat),
    decreases n,
{
    let digits: [char; 16] = [
        '0', '1', '2', '3', '4', '5', '6', '7', '8', '9', 'A', 'B', 'C', 'D', 'E', 'F',
    ];
    if n >= 16 {
        push_hex(out, n / 16);
    }
    let d: usize = (n % 16) as usize;
    assert(digits@ =~= seq!['0', '1', '2', '3', '4', '5', '6', '7', '8', '9', 'A', 'B', 'C', 'D', 'E', 'F']);
    out.push(digits[d]);
    assert(final(out)@ =~= old(out)@ + hex_text(n as nat)) by {
        if n < 16 {
            assert(hex_text(n as nat) =~= seq![hex_digit(n as nat)]);
        }
    }
}

/// Relies on `String`'s `FromIterator<char>`: the string holds the
/// characters in order.
#[verifier::external_body]
fn string_of_chars(chars: Vec<char>) -> (r: String)
    ensures
        r@ == chars@,
{
    chars.into_iter().collect()
}

impl Message {
    /// A frame with `id` carrying `payload`; the unused data bytes are zero.
    pub fn from_frame(id: u32, payload: &[u8]) -> (r: Message)
        requires
            payload@.len() <= 8,
        ensures
            r.id == id,
            r.len == payload@.len(),
            r.data@.subrange(0, payload@.len() as int) == payload@,
            forall|k: int| payload@.len() <= k < 8 ==> r.data@[k] == 0,
    {
        let mut data: [u8; 8] = [0; 8];
        let mut i: usize = 0;
        while i < payload.len()
            invariant
                payload@.len() <= 8,
                i <= payload@.len(),
                data@.len() == 8,
                forall|k: int| 0 <= k < i ==> data@[k] == payload@[k],
                forall|k: int| i <= k < 8 ==> data@[k] == 0,
            decreases payload@.len() - i,
        {
            data[i] = payload[i];
            i = i + 1;
        }
        assert(data@.subrange(0, payload@.len() as int) =~= payload@);
        Message { id, data, len: payload.len() as u8 }
    }

    /// The data bytes in use: the first `len` of them.
    pub fn payload(&self) -> (r: &[u8])
        requires
            self.len <= 8,
        ensures
            r@ == self.data@.subrange(0, self.len as int),
    {
        self.data.as_slice().split_at(self.len as usize).0
    }

    /// The frame as text: `[ID] B0 B1 .. B7`, in upper-case hexadecimal.
    pub fn to_text(&self) -> (r: String)
        ensures
            r@ == message_text(self.id, self.data@),
    {
        let mut out: Vec<char> = Vec::new();
        out.push('[');
        push_hex(&mut out, self.id);
        out.push(']');
        out.push(' ');
        let ghost head = out@;
        let mut i: usize = 0;
        while i < 8
            invariant
                i <= 8,
                self.data@.len() == 8,
                out@ == head + hex_list_text(self.data@.subrange(0, i as int)),
            decreases 8 - i,
        {
            if i > 0 {
                out.push(' ');
            }
            push_hex(&mut out, self.data[i] as u32);
            i = i + 1;
            proof {
                let s = self.data@.subrange(0, i as int);
                assert(s.drop_last() =~= self.data@.subrange(0, i - 1));
                assert(s.last() == self.data@[i - 1]);
                if i == 1 {
                    assert(self.data@.subrange(0, 0) =~= Seq::<u8>::empty());
                }
            }
            assert(out@ =~= head + hex_list_text(self.data@.subrange(0, i as int)));
        }
        assert(self.data@.subrange(0, 8) =~= self.data@);
        assert(out@ =~= message_text(self.id, self.data@));
        string_of_chars(out)
    }
}

/// A CAN interface.
pub trait Can {
    /// Sends a CAN message through the interface.
    ///
    /// # Arguments
    ///
    /// * `id` - The arbitration id of the message
    /// * `message` - The message data. Must not be larger than 8 bytes
    fn write(&self, id: u32, message: &[u8]) -> std::io::Result<()>;

    /// Sends `message`: its id and the data bytes in use.
    fn send_msg(&self, message: &Message) -> std::io::Result<()>
        requires
            message.len <= 8,
    {
        self.write(message.id, message.payload())
    }

    /// Receives a single message from the interface.
    /// If no messages are received before the timeout, returns an error of kind `TimedOut`.
    ///
    /// # Arguments
    ///
    /// * `timeout` - The time to wait for a message before returning
    fn read(&self, timeout: Duration) -> std::io::Result<Message>;
}

} // verus!
