use vstd::prelude::*;
use vstd::utf8::encode_utf8;

use crate::codec::{
    array_of_bulk_strings, bulk_string, bulk_strings, concat_all, lemma_int_text_no_line_feed,
    ARRAY_PREFIX, CR, LF,
};
use crate::error::{ErrorKind, RedisError};
use crate::numbers::{int_text, unsigned_text};
use crate::RedisResult;
use crate::protocol::RedisSerializationProtocol;

verus! {

/// Where `LINSERT` places the new element relative to the pivot.
#[derive(Debug, Copy, Clone, PartialEq, Eq, Structural)]
pub enum ListBeforeOrAfter {
    Before,
    After,
}

/// A request being built: a command name and its arguments, each already
/// framed as a bulk string.
pub struct Command {
    cmd: String,
    args: Vec<u8>,
    count: usize,
    contents: Ghost<Seq<Seq<u8>>>,
}

pub proof fn lemma_bulk_strings_len(cs: Seq<Seq<u8>>)
    ensures
        concat_all(bulk_strings(cs)).len() >= 6 * cs.len(),
    decreases cs.len(),
{
    if cs.len() > 0 {
        lemma_int_text_no_line_feed(cs[0].len() as int);
        assert(bulk_strings(cs).drop_first() =~= bulk_strings(cs.drop_first()));
        lemma_bulk_strings_len(cs.drop_first());
    }
}

proof fn lemma_bulk_strings_push(cs: Seq<Seq<u8>>, c: Seq<u8>)
    ensures
        concat_all(bulk_strings(cs.push(c))) == concat_all(bulk_strings(cs)) + bulk_string(c),
    decreases cs.len(),
{
    if cs.len() == 0 {
        assert(bulk_strings(cs.push(c)).drop_first() =~= Seq::<Seq<u8>>::empty());
        assert(concat_all(Seq::<Seq<u8>>::empty()) == Seq::<u8>::empty());
        assert(bulk_strings(cs.push(c))[0] == bulk_string(c));
        assert(concat_all(bulk_strings(cs.push(c))) =~= bulk_string(c));
    } else {
        assert(cs.push(c).drop_first() =~= cs.drop_first().push(c));
        assert(bulk_strings(cs.push(c)).drop_first() =~= bulk_strings(cs.drop_first().push(c)));
        assert(bulk_strings(cs).drop_first() =~= bulk_strings(cs.drop_first()));
        lemma_bulk_strings_push(cs.drop_first(), c);
        assert(concat_all(bulk_strings(cs.push(c))) =~= concat_all(bulk_strings(cs)) + bulk_string(c));
    }
}

proof fn lemma_bulk_strings_prepend(c: Seq<u8>, cs: Seq<Seq<u8>>)
    ensures
        concat_all(bulk_strings(seq![c] + cs)) == bulk_string(c) + concat_all(bulk_strings(cs)),
{
    assert((seq![c] + cs).drop_first() =~= cs);
    assert(bulk_strings(seq![c] + cs).drop_first() =~= bulk_strings(cs));
}

impl Command {
    /// The command name.
    pub closed spec fn name(&self) -> Seq<char> {
        self.cmd@
    }

    /// The contents of the arguments given so far, in order.
    pub closed spec fn arguments(&self) -> Seq<Seq<u8>> {
        self.contents@
    }

    pub closed spec fn wf(&self) -> bool {
        &&& self.args@ == concat_all(bulk_strings(self.contents@))
        &&& self.count == self.contents@.len() + 1
    }

    /// The bytes this command goes on the wire as: an array of bulk strings,
    /// the name first, then the arguments.
    pub open spec fn wire(&self) -> Seq<u8> {
        array_of_bulk_strings(seq![encode_utf8(self.name())] + self.arguments())
    }

    /// A command with the given name and no arguments yet.
    pub fn new(cmd: &str) -> (r: Command)
        ensures
            r.wf(),
            r.name() == cmd@,
            r.arguments() == Seq::<Seq<u8>>::empty(),
    {
        Command { cmd: cmd.to_string(), args: Vec::new(), count: 1, contents: Ghost(Seq::empty()) }
    }

    /// Appends one argument.
    pub fn arg<T: RedisSerializationProtocol>(&mut self, arg: T) -> (r: &mut Self)
        requires
            old(self).wf(),
        ensures
            r.wf(),
            r.name() == old(self).name(),
            r.arguments() == old(self).arguments().push(arg.wire_content()),
            *final(self) == *final(r),
    {
        proof {
            lemma_bulk_strings_len(self.contents@);
            lemma_bulk_strings_push(self.contents@, arg.wire_content());
        }
        assert(self.args@.len() == self.args.len());
        self.count = self.count + 1;
        let mut bytes = arg.serialization();
        self.args.append(&mut bytes);
        self.contents = Ghost(self.contents@.push(arg.wire_content()));
        self
    }

    /// The request bytes.
    pub fn into_vec(self) -> (r: Vec<u8>)
        requires
            self.wf(),
        ensures
            r@ == self.wire(),
    {
        let Command { cmd, mut args, count, contents } = self;
        let mut buf: Vec<u8> = Vec::new();
        buf.push(ARRAY_PREFIX);
        let mut count_text = unsigned_text(count as u128);
        buf.append(&mut count_text);
        buf.push(CR);
        buf.push(LF);
        let mut name = cmd.serialization();
        buf.append(&mut name);
        buf.append(&mut args);
        proof {
            let all = seq![encode_utf8(cmd@)] + contents@;
            lemma_bulk_strings_prepend(encode_utf8(cmd@), contents@);
            assert(all.len() == count);
            assert(buf@ =~= array_of_bulk_strings(all));
        }
        buf
    }
}

/// The argument contents an optional argument adds: its own where present,
/// none where absent.
pub open spec fn optional_argument<T: RedisSerializationProtocol>(o: Option<T>) -> Seq<Seq<u8>> {
    match o {
        Some(v) => seq![v.wire_content()],
        None => Seq::empty(),
    }
}

/// The argument contents a flag adds: the word where the flag is set.
pub open spec fn flag_argument(flag: Option<bool>, word: Seq<u8>) -> Seq<Seq<u8>> {
    if flag == Some(true) {
        seq![word]
    } else {
        Seq::empty()
    }
}

/// The argument contents an option with a keyword adds: the keyword and the
/// value, where present.
pub open spec fn keyed_argument(o: Option<u64>, word: Seq<u8>) -> Seq<Seq<u8>> {
    match o {
        Some(v) => seq![word, int_text(v as int)],
        None => Seq::empty(),
    }
}

/// `EX`
pub open spec fn ex_word() -> Seq<u8> {
    seq![69u8, 88u8]
}

/// `PX`
pub open spec fn px_word() -> Seq<u8> {
    seq![80u8, 88u8]
}

/// `NX`
pub open spec fn nx_word() -> Seq<u8> {
    seq![78u8, 88u8]
}

/// `XX`
pub open spec fn xx_word() -> Seq<u8> {
    seq![88u8, 88u8]
}

fn word(bytes: &[u8]) -> (r: Vec<u8>)
    ensures
        r@ == bytes@,
{
    let mut v: Vec<u8> = Vec::new();
    v.extend_from_slice(bytes);
    v
}

/// The `SET` command: the key and value, then `EX <seconds>` and
/// `PX <milliseconds>` where given, then `NX` and `XX` where set.
pub fn set_command<K: RedisSerializationProtocol, V: RedisSerializationProtocol>(
    key: K,
    value: V,
    ex_seconds: Option<u64>,
    px_milliseconds: Option<u64>,
    nx: Option<bool>,
    xx: Option<bool>,
) -> (r: Command)
    ensures
        r.wf(),
        r.name() == "SET"@,
        r.arguments() == seq![key.wire_content(), value.wire_content()] + keyed_argument(
            ex_seconds,
            ex_word(),
        ) + keyed_argument(px_milliseconds, px_word()) + flag_argument(nx, nx_word()) + flag_argument(
            xx,
            xx_word(),
        ),
{
    let ghost k = key.wire_content();
    let ghost v = value.wire_content();
    let mut cmd = Command::new("SET");
    cmd.arg(key);
    cmd.arg(value);
    let ghost a0 = cmd.arguments();
    assert(a0 =~= seq![k, v]);
    if let Some(ex) = ex_seconds {
        cmd.arg(word(&[69, 88]));
        cmd.arg(ex);
    }
    let ghost a1 = cmd.arguments();
    assert(a1 =~= a0 + keyed_argument(ex_seconds, ex_word()));
    if let Some(px) = px_milliseconds {
        cmd.arg(word(&[80, 88]));
        cmd.arg(px);
    }
    let ghost a2 = cmd.arguments();
    assert(a2 =~= a1 + keyed_argument(px_milliseconds, px_word()));
    if let Some(true) = nx {
        cmd.arg(word(&[78, 88]));
    }
    let ghost a3 = cmd.arguments();
    assert(a3 =~= a2 + flag_argument(nx, nx_word()));
    if let Some(true) = xx {
        cmd.arg(word(&[88, 88]));
    }
    assert(cmd.arguments() =~= a3 + flag_argument(xx, xx_word()));
    cmd
}

/// The `BITCOUNT` command: the key, then the start and the end where given.
pub fn bitcount_command<K: RedisSerializationProtocol>(key: K, start: Option<i64>, end: Option<i64>) -> (r: Command)
    ensures
        r.wf(),
        r.name() == "BITCOUNT"@,
        r.arguments() == seq![key.wire_content()] + optional_argument(start) + optional_argument(end),
{
    let ghost k = key.wire_content();
    let mut cmd = Command::new("BITCOUNT");
    cmd.arg(key);
    let ghost a0 = cmd.arguments();
    assert(a0 =~= seq![k]);
    if let Some(start) = start {
        cmd.arg(start);
    }
    let ghost a1 = cmd.arguments();
    assert(a1 =~= a0 + optional_argument(start));
    if let Some(end) = end {
        cmd.arg(end);
    }
    assert(cmd.arguments() =~= a1 + optional_argument(end));
    cmd
}

/// The `BITPOS` command: the key and the bit, then the start and the end where
/// given. An end without a start is a `ClientError`.
pub fn bitpos_command<K: RedisSerializationProtocol>(
    key: K,
    bit: u8,
    start: Option<usize>,
    end: Option<usize>,
) -> (r: RedisResult<Command>)
    ensures
        r is Err <==> (end is Some && start is None),
        r matches Err(e) ==> e.kind() == ErrorKind::ClientError,
        r matches Ok(cmd) ==> cmd.wf() && cmd.name() == "BITPOS"@ && cmd.arguments() == seq![
            key.wire_content(),
            bit.wire_content(),
        ] + optional_argument(start) + optional_argument(end),
{
    if end.is_some() && start.is_none() {
        return Err(RedisError::custom(ErrorKind::ClientError, "`start` shouldn't be none when `end` has given"));
    }
    let ghost k = key.wire_content();
    let mut cmd = Command::new("BITPOS");
    cmd.arg(key);
    cmd.arg(bit);
    let ghost a0 = cmd.arguments();
    assert(a0 =~= seq![k, bit.wire_content()]);
    if let Some(start) = start {
        cmd.arg(start);
    }
    let ghost a1 = cmd.arguments();
    assert(a1 =~= a0 + optional_argument(start));
    if let Some(end) = end {
        cmd.arg(end);
    }
    assert(cmd.arguments() =~= a1 + optional_argument(end));
    Ok(cmd)
}

} // verus!
