//! Little-endian wire-format codec for the game-state snapshot types.
//!
//! Every fixed-size type implements [`FromBytesExact`] and [`ToBytesExact`]:
//! its encoding is the concatenation of its members' encodings in declared
//! wire order, and its width is a statically known constant. That field
//! order *is* the wire contract; reordering breaks compatibility with the
//! peer process.
//!
//! Decoding never panics: malformed input (wrong length, an enumeration
//! byte outside its closed set) is reported as [`WireError::FormatError`].

use vstd::prelude::*;
use vstd::bytes::*;
use vstd::slice::slice_subrange;

verus! {

/// How the transport and codec report bad input.
///
/// I/O failures are outside this crate; the socket layer around it keeps
/// its own error type for those.
#[derive(Clone, Copy, Debug, PartialEq, Eq)]
pub enum WireError {
    /// Malformed, truncated, or semantically invalid payload bytes.
    FormatError,
    /// A tag that is never valid in the direction it was received.
    ProtocolError,
}

/// A type that can be decoded from a byte slice.
///
/// `dec_ok` says exactly which byte sequences decode; `dec` gives the
/// abstract value they decode to. `from_bytes` is total and never panics:
/// it returns `FormatError` on every input that `dec_ok` rejects.
pub trait FromBytes: View + Sized {
    /// Which byte sequences are a valid encoding of some value.
    spec fn dec_ok(s: Seq<u8>) -> bool;

    /// The value a valid byte sequence decodes to.
    spec fn dec(s: Seq<u8>) -> Self::V;

    /// Decode, rejecting invalid input instead of panicking.
    fn from_bytes(bytes: &[u8]) -> (r: Result<Self, WireError>)
        ensures
            r is Ok <==> Self::dec_ok(bytes@),
            r matches Ok(v) ==> v@ == Self::dec(bytes@),
            r matches Err(e) ==> e == WireError::FormatError,
    ;
}

/// A decodable type whose encoding has a statically known byte width.
pub trait FromBytesExact: FromBytes {
    /// The constant encoded width of this type.
    spec fn spec_num_bytes() -> nat;

    /// Executable mirror of [`Self::spec_num_bytes`].
    fn num_bytes() -> (n: usize)
        ensures
            n == Self::spec_num_bytes(),
    ;

    /// Only sequences of exactly the fixed width decode, so any shorter
    /// (or longer) buffer is rejected.
    proof fn lemma_dec_ok_len(s: Seq<u8>)
        ensures
            Self::dec_ok(s) ==> s.len() == Self::spec_num_bytes(),
    ;
}

/// A fixed-width type that can also be encoded, and whose decoder inverts
/// its encoder.
pub trait ToBytesExact: FromBytesExact {
    /// The encoding of this value.
    spec fn enc(&self) -> Seq<u8>;

    /// Encode into a fresh buffer of exactly the fixed width.
    fn to_bytes(&self) -> (out: Vec<u8>)
        ensures
            out@ == self.enc(),
    ;

    /// The encoding has exactly the fixed width.
    proof fn lemma_enc_len(&self)
        ensures
            self.enc().len() == Self::spec_num_bytes(),
    ;

    /// Round trip: decoding an encoding yields the value it came from.
    proof fn lemma_round_trip(&self)
        ensures
            Self::dec_ok(self.enc()),
            Self::dec(self.enc()) == self@,
    ;
}

/// A sequential decoder over a borrowed byte slice.
///
/// `read` slices the next `I::num_bytes()` bytes, decodes them, and
/// advances the cursor. That a decoder's cursor lands exactly at its
/// type's width is the static precondition of
/// [`ByteReader::debug_assert_num_bytes`].
pub struct ByteReader<'a> {
    pub idx: usize,
    pub bytes: &'a [u8],
}

impl<'a> ByteReader<'a> {
    pub fn new(bytes: &'a [u8]) -> (r: Self)
        ensures
            r.idx == 0,
            r.bytes@ == bytes@,
    {
        ByteReader { idx: 0, bytes }
    }

    pub fn read<I: FromBytesExact>(&mut self) -> (r: Result<I, WireError>)
        requires
            old(self).idx + I::spec_num_bytes() <= old(self).bytes@.len(),
        ensures
            final(self).bytes@ == old(self).bytes@,
            r is Ok <==> I::dec_ok(
                old(self).bytes@.subrange(
                    old(self).idx as int,
                    old(self).idx + I::spec_num_bytes(),
                ),
            ),
            r matches Ok(v) ==> {
                &&& v@ == I::dec(
                    old(self).bytes@.subrange(
                        old(self).idx as int,
                        old(self).idx + I::spec_num_bytes(),
                    ),
                )
                &&& final(self).idx == old(self).idx + I::spec_num_bytes()
            },
            r matches Err(e) ==> e == WireError::FormatError && final(self).idx == old(self).idx,
    {
        let n = I::num_bytes();
        let len: usize = self.bytes.len();
        let piece = slice_subrange(self.bytes, self.idx, self.idx + n);
        match I::from_bytes(piece) {
            Ok(v) => {
                self.idx = self.idx + n;
                Ok(v)
            },
            Err(e) => Err(e),
        }
    }

    /// The claim that a decoder consumed exactly `num_bytes` bytes,
    /// discharged statically at every call site instead of by a runtime
    /// assertion.
    pub fn debug_assert_num_bytes(&self, num_bytes: usize)
        requires
            self.idx == num_bytes,
    {
    }
}

/// A sequential encoder that appends each member's encoding in wire order.
pub struct ByteWriter {
    pub bytes: Vec<u8>,
}

impl ByteWriter {
    pub fn new() -> (w: Self)
        ensures
            w.bytes@ == Seq::<u8>::empty(),
    {
        ByteWriter { bytes: Vec::new() }
    }

    pub fn write<I: ToBytesExact>(&mut self, item: &I)
        ensures
            final(self).bytes@ == old(self).bytes@ + item.enc(),
    {
        let mut piece = item.to_bytes();
        self.bytes.append(&mut piece);
    }

    pub fn inner(self) -> (out: Vec<u8>)
        ensures
            out@ == self.bytes@,
    {
        self.bytes
    }
}

/// vstd's u32 little-endian round-trip facts, re-stated with the encoding
/// itself as the quantifier trigger so that mentioning an encoding
/// suffices to use them.
proof fn lemma_u32_le_facts()
    ensures
        forall|x: u32| #![trigger spec_u32_to_le_bytes(x)]
            spec_u32_to_le_bytes(x).len() == 4 && spec_u32_from_le_bytes(
                spec_u32_to_le_bytes(x),
            ) == x,
{
    lemma_auto_spec_u32_to_from_le_bytes();
    assert forall|x: u32| #![trigger spec_u32_to_le_bytes(x)]
        spec_u32_to_le_bytes(x).len() == 4 && spec_u32_from_le_bytes(
            spec_u32_to_le_bytes(x),
        ) == x by {
        assert(spec_u32_to_le_bytes(x).len() == 4);
    }
}

/// Splitting a concatenation: each half is the corresponding subrange.
proof fn lemma_concat_split(a: Seq<u8>, b: Seq<u8>)
    ensures
        (a + b).subrange(0, a.len() as int) == a,
        (a + b).subrange(a.len() as int, (a.len() + b.len()) as int) == b,
{
    assert((a + b).subrange(0, a.len() as int) =~= a);
    assert((a + b).subrange(a.len() as int, (a.len() + b.len()) as int) =~= b);
}

/// A subrange taken inside a known prefix can be taken in the whole
/// sequence instead.
proof fn lemma_subrange_of_prefix(s: Seq<u8>, p: Seq<u8>, a: int, b: int)
    requires
        p.len() <= s.len(),
        s.subrange(0, p.len() as int) == p,
        0 <= a <= b <= p.len(),
    ensures
        s.subrange(a, b) == p.subrange(a, b),
{
    assert(s.subrange(a, b) =~= p.subrange(a, b));
}

impl FromBytes for u8 {
    open spec fn dec_ok(s: Seq<u8>) -> bool {
        s.len() == 1
    }

    open spec fn dec(s: Seq<u8>) -> u8 {
        s[0]
    }

    fn from_bytes(bytes: &[u8]) -> (r: Result<Self, WireError>) {
        if bytes.len() == 1 {
            Ok(bytes[0])
        } else {
            Err(WireError::FormatError)
        }
    }
}

impl FromBytesExact for u8 {
    open spec fn spec_num_bytes() -> nat {
        1
    }

    fn num_bytes() -> usize {
        1
    }

    proof fn lemma_dec_ok_len(s: Seq<u8>) {
    }
}

impl ToBytesExact for u8 {
    open spec fn enc(&self) -> Seq<u8> {
        seq![*self]
    }

    fn to_bytes(&self) -> (out: Vec<u8>) {
        let mut out: Vec<u8> = Vec::new();
        out.push(*self);
        out
    }

    proof fn lemma_enc_len(&self) {
    }

    proof fn lemma_round_trip(&self) {
        assert(self.enc()[0] == *self);
    }
}

impl FromBytes for bool {
    open spec fn dec_ok(s: Seq<u8>) -> bool {
        s.len() == 1
    }

    open spec fn dec(s: Seq<u8>) -> bool {
        s[0] != 0
    }

    fn from_bytes(bytes: &[u8]) -> (r: Result<Self, WireError>) {
        if bytes.len() == 1 {
            Ok(bytes[0] != 0)
        } else {
            Err(WireError::FormatError)
        }
    }
}

impl FromBytesExact for bool {
    open spec fn spec_num_bytes() -> nat {
        1
    }

    fn num_bytes() -> usize {
        1
    }

    proof fn lemma_dec_ok_len(s: Seq<u8>) {
    }
}

impl ToBytesExact for bool {
    open spec fn enc(&self) -> Seq<u8> {
        seq![if *self { 1u8 } else { 0u8 }]
    }

    fn to_bytes(&self) -> (out: Vec<u8>) {
        let mut out: Vec<u8> = Vec::new();
        out.push(if *self { 1 } else { 0 });
        out
    }

    proof fn lemma_enc_len(&self) {
    }

    proof fn lemma_round_trip(&self) {
        assert(self.enc()[0] == if *self { 1u8 } else { 0u8 });
    }
}

impl FromBytes for u32 {
    open spec fn dec_ok(s: Seq<u8>) -> bool {
        s.len() == 4
    }

    open spec fn dec(s: Seq<u8>) -> u32 {
        spec_u32_from_le_bytes(s)
    }

    fn from_bytes(bytes: &[u8]) -> (r: Result<Self, WireError>) {
        if bytes.len() == 4 {
            Ok(u32_from_le_bytes(bytes))
        } else {
            Err(WireError::FormatError)
        }
    }
}

impl FromBytesExact for u32 {
    open spec fn spec_num_bytes() -> nat {
        4
    }

    fn num_bytes() -> usize {
        4
    }

    proof fn lemma_dec_ok_len(s: Seq<u8>) {
    }
}

impl ToBytesExact for u32 {
    open spec fn enc(&self) -> Seq<u8> {
        spec_u32_to_le_bytes(*self)
    }

    fn to_bytes(&self) -> (out: Vec<u8>) {
        u32_to_le_bytes(*self)
    }

    proof fn lemma_enc_len(&self) {
        lemma_auto_spec_u32_to_from_le_bytes();
    }

    proof fn lemma_round_trip(&self) {
        lemma_u32_le_facts();
    }
}

impl FromBytes for u64 {
    open spec fn dec_ok(s: Seq<u8>) -> bool {
        s.len() == 8
    }

    open spec fn dec(s: Seq<u8>) -> u64 {
        spec_u64_from_le_bytes(s)
    }

    fn from_bytes(bytes: &[u8]) -> (r: Result<Self, WireError>) {
        if bytes.len() == 8 {
            Ok(u64_from_le_bytes(bytes))
        } else {
            Err(WireError::FormatError)
        }
    }
}

impl FromBytesExact for u64 {
    open spec fn spec_num_bytes() -> nat {
        8
    }

    fn num_bytes() -> usize {
        8
    }

    proof fn lemma_dec_ok_len(s: Seq<u8>) {
    }
}

impl ToBytesExact for u64 {
    open spec fn enc(&self) -> Seq<u8> {
        spec_u64_to_le_bytes(*self)
    }

    fn to_bytes(&self) -> (out: Vec<u8>) {
        u64_to_le_bytes(*self)
    }

    proof fn lemma_enc_len(&self) {
        lemma_auto_spec_u64_to_from_le_bytes();
    }

    proof fn lemma_round_trip(&self) {
        lemma_auto_spec_u64_to_from_le_bytes();
    }
}

/// The side a car plays for, encoded as one byte equal to the variant's
/// ordinal. Any other byte is invalid input.
#[derive(Clone, Copy, Debug, PartialEq, Eq)]
pub enum Team {
    Blue,
    Orange,
}

impl View for Team {
    type V = Team;

    open spec fn view(&self) -> Team {
        *self
    }
}

impl Team {
    /// The one-byte ordinal this variant encodes as.
    pub open spec fn spec_ordinal(self) -> u8 {
        match self {
            Team::Blue => 0,
            Team::Orange => 1,
        }
    }

    /// The variant for an ordinal known to be in range; out-of-range input
    /// is excluded statically, where the codec path reports `FormatError`
    /// instead.
    pub fn from_u8(value: u8) -> (r: Self)
        requires
            value < 2,
        ensures
            r.spec_ordinal() == value,
    {
        if value == 0 {
            Team::Blue
        } else {
            Team::Orange
        }
    }

    /// Executable mirror of [`Team::spec_ordinal`].
    pub fn ordinal(self) -> (r: u8)
        ensures
            r == self.spec_ordinal(),
    {
        match self {
            Team::Blue => 0,
            Team::Orange => 1,
        }
    }
}

impl FromBytes for Team {
    open spec fn dec_ok(s: Seq<u8>) -> bool {
        s.len() == 1 && s[0] < 2
    }

    open spec fn dec(s: Seq<u8>) -> Team {
        if s[0] == 0 {
            Team::Blue
        } else {
            Team::Orange
        }
    }

    fn from_bytes(bytes: &[u8]) -> (r: Result<Self, WireError>) {
        if bytes.len() != 1 {
            return Err(WireError::FormatError);
        }
        match bytes[0] {
            0 => Ok(Team::Blue),
            1 => Ok(Team::Orange),
            _ => Err(WireError::FormatError),
        }
    }
}

impl FromBytesExact for Team {
    open spec fn spec_num_bytes() -> nat {
        1
    }

    fn num_bytes() -> usize {
        1
    }

    proof fn lemma_dec_ok_len(s: Seq<u8>) {
    }
}

impl ToBytesExact for Team {
    open spec fn enc(&self) -> Seq<u8> {
        seq![self.spec_ordinal()]
    }

    fn to_bytes(&self) -> (out: Vec<u8>) {
        let mut out: Vec<u8> = Vec::new();
        out.push(self.ordinal());
        out
    }

    proof fn lemma_enc_len(&self) {
    }

    proof fn lemma_round_trip(&self) {
        assert(self.enc()[0] == self.spec_ordinal());
    }
}

/// The optional game-mode tag carried in the snapshot header, encoded as
/// one byte equal to the variant's ordinal (0 through 4). Any other byte
/// is invalid input.
#[derive(Clone, Copy, Debug, PartialEq, Eq)]
pub enum GameMode {
    Soccar,
    Hoops,
    HeatSeeker,
    Snowday,
    TheVoid,
}

impl View for GameMode {
    type V = GameMode;

    open spec fn view(&self) -> GameMode {
        *self
    }
}

impl GameMode {
    /// The one-byte ordinal this variant encodes as.
    pub open spec fn spec_ordinal(self) -> u8 {
        match self {
            GameMode::Soccar => 0,
            GameMode::Hoops => 1,
            GameMode::HeatSeeker => 2,
            GameMode::Snowday => 3,
            GameMode::TheVoid => 4,
        }
    }

    /// Executable mirror of [`GameMode::spec_ordinal`].
    pub fn ordinal(self) -> (r: u8)
        ensures
            r == self.spec_ordinal(),
    {
        match self {
            GameMode::Soccar => 0,
            GameMode::Hoops => 1,
            GameMode::HeatSeeker => 2,
            GameMode::Snowday => 3,
            GameMode::TheVoid => 4,
        }
    }
}

impl FromBytes for GameMode {
    open spec fn dec_ok(s: Seq<u8>) -> bool {
        s.len() == 1 && s[0] < 5
    }

    open spec fn dec(s: Seq<u8>) -> GameMode {
        if s[0] == 0 {
            GameMode::Soccar
        } else if s[0] == 1 {
            GameMode::Hoops
        } else if s[0] == 2 {
            GameMode::HeatSeeker
        } else if s[0] == 3 {
            GameMode::Snowday
        } else {
            GameMode::TheVoid
        }
    }

    fn from_bytes(bytes: &[u8]) -> (r: Result<Self, WireError>) {
        if bytes.len() != 1 {
            return Err(WireError::FormatError);
        }
        match bytes[0] {
            0 => Ok(GameMode::Soccar),
            1 => Ok(GameMode::Hoops),
            2 => Ok(GameMode::HeatSeeker),
            3 => Ok(GameMode::Snowday),
            4 => Ok(GameMode::TheVoid),
            _ => Err(WireError::FormatError),
        }
    }
}

impl FromBytesExact for GameMode {
    open spec fn spec_num_bytes() -> nat {
        1
    }

    fn num_bytes() -> usize {
        1
    }

    proof fn lemma_dec_ok_len(s: Seq<u8>) {
    }
}

impl ToBytesExact for GameMode {
    open spec fn enc(&self) -> Seq<u8> {
        seq![self.spec_ordinal()]
    }

    fn to_bytes(&self) -> (out: Vec<u8>) {
        let mut out: Vec<u8> = Vec::new();
        out.push(self.ordinal());
        out
    }

    proof fn lemma_enc_len(&self) {
    }

    proof fn lemma_round_trip(&self) {
        assert(self.enc()[0] == self.spec_ordinal());
    }
}

/// A three-component vector. Each component is the raw bit pattern of an
/// IEEE-754 single-precision number, stored and encoded as a 32-bit
/// little-endian lane; the codec never interprets it numerically.
#[derive(Clone, Copy, Debug, PartialEq, Eq)]
pub struct Vec3 {
    pub x: u32,
    pub y: u32,
    pub z: u32,
}

impl View for Vec3 {
    type V = Vec3;

    open spec fn view(&self) -> Vec3 {
        *self
    }
}

impl Vec3 {
    pub fn new(x: u32, y: u32, z: u32) -> (r: Self)
        ensures
            r == (Vec3 { x, y, z }),
    {
        Vec3 { x, y, z }
    }
}

impl FromBytes for Vec3 {
    open spec fn dec_ok(s: Seq<u8>) -> bool {
        s.len() == 12
    }

    open spec fn dec(s: Seq<u8>) -> Vec3 {
        Vec3 {
            x: spec_u32_from_le_bytes(s.subrange(0, 4)),
            y: spec_u32_from_le_bytes(s.subrange(4, 8)),
            z: spec_u32_from_le_bytes(s.subrange(8, 12)),
        }
    }

    fn from_bytes(bytes: &[u8]) -> (r: Result<Self, WireError>) {
        if bytes.len() != 12 {
            return Err(WireError::FormatError);
        }
        let mut reader = ByteReader::new(bytes);
        let x = reader.read::<u32>()?;
        let y = reader.read::<u32>()?;
        let z = reader.read::<u32>()?;
        reader.debug_assert_num_bytes(12);
        Ok(Vec3 { x, y, z })
    }
}

impl FromBytesExact for Vec3 {
    open spec fn spec_num_bytes() -> nat {
        12
    }

    fn num_bytes() -> usize {
        12
    }

    proof fn lemma_dec_ok_len(s: Seq<u8>) {
    }
}

impl ToBytesExact for Vec3 {
    open spec fn enc(&self) -> Seq<u8> {
        spec_u32_to_le_bytes(self.x) + spec_u32_to_le_bytes(self.y) + spec_u32_to_le_bytes(self.z)
    }

    fn to_bytes(&self) -> (out: Vec<u8>) {
        let mut writer = ByteWriter::new();
        writer.write(&self.x);
        writer.write(&self.y);
        writer.write(&self.z);
        writer.inner()
    }

    proof fn lemma_enc_len(&self) {
        lemma_u32_le_facts();
    }

    proof fn lemma_round_trip(&self) {
        lemma_u32_le_facts();
        let s = self.enc();
        assert(s.subrange(0, 4) =~= spec_u32_to_le_bytes(self.x));
        assert(s.subrange(4, 8) =~= spec_u32_to_le_bytes(self.y));
        assert(s.subrange(8, 12) =~= spec_u32_to_le_bytes(self.z));
    }
}

} // verus!

verus! {

/// An orientation as three basis-vector rows, encoded row by row.
#[derive(Clone, Copy, Debug, PartialEq, Eq)]
pub struct RotMat {
    pub forward: Vec3,
    pub right: Vec3,
    pub up: Vec3,
}

impl View for RotMat {
    type V = RotMat;

    open spec fn view(&self) -> RotMat {
        *self
    }
}

impl RotMat {
    pub fn new(forward: Vec3, right: Vec3, up: Vec3) -> (r: Self)
        ensures
            r == (RotMat { forward, right, up }),
    {
        RotMat { forward, right, up }
    }
}

impl FromBytes for RotMat {
    open spec fn dec_ok(s: Seq<u8>) -> bool {
        s.len() == 36
    }

    open spec fn dec(s: Seq<u8>) -> RotMat {
        RotMat {
            forward: Vec3::dec(s.subrange(0, 12)),
            right: Vec3::dec(s.subrange(12, 24)),
            up: Vec3::dec(s.subrange(24, 36)),
        }
    }

    fn from_bytes(bytes: &[u8]) -> (r: Result<Self, WireError>) {
        if bytes.len() != 36 {
            return Err(WireError::FormatError);
        }
        let mut reader = ByteReader::new(bytes);
        let forward = reader.read::<Vec3>()?;
        let right = reader.read::<Vec3>()?;
        let up = reader.read::<Vec3>()?;
        reader.debug_assert_num_bytes(36);
        Ok(RotMat { forward, right, up })
    }
}

impl FromBytesExact for RotMat {
    open spec fn spec_num_bytes() -> nat {
        36
    }

    fn num_bytes() -> usize {
        36
    }

    proof fn lemma_dec_ok_len(s: Seq<u8>) {
    }
}

impl ToBytesExact for RotMat {
    open spec fn enc(&self) -> Seq<u8> {
        self.forward.enc() + self.right.enc() + self.up.enc()
    }

    fn to_bytes(&self) -> (out: Vec<u8>) {
        let mut writer = ByteWriter::new();
        writer.write(&self.forward);
        writer.write(&self.right);
        writer.write(&self.up);
        writer.inner()
    }

    proof fn lemma_enc_len(&self) {
        self.forward.lemma_enc_len();
        self.right.lemma_enc_len();
        self.up.lemma_enc_len();
    }

    proof fn lemma_round_trip(&self) {
        self.forward.lemma_enc_len();
        self.right.lemma_enc_len();
        self.up.lemma_enc_len();
        self.forward.lemma_round_trip();
        self.right.lemma_round_trip();
        self.up.lemma_round_trip();
        let s = self.enc();
        assert(s.subrange(0, 12) =~= self.forward.enc());
        assert(s.subrange(12, 24) =~= self.right.enc());
        assert(s.subrange(24, 36) =~= self.up.enc());
    }
}

/// The record of the last ball contact a car made.
#[derive(Clone, Copy, Debug, PartialEq, Eq)]
pub struct BallHitInfo {
    pub is_valid: bool,
    pub relative_pos_on_ball: Vec3,
    pub ball_pos: Vec3,
    pub extra_hit_vel: Vec3,
    pub tick_count_when_hit: u64,
    pub tick_count_when_extra_impulse_applied: u64,
}

impl View for BallHitInfo {
    type V = BallHitInfo;

    open spec fn view(&self) -> BallHitInfo {
        *self
    }
}

impl FromBytes for BallHitInfo {
    open spec fn dec_ok(s: Seq<u8>) -> bool {
        s.len() == 53
    }

    open spec fn dec(s: Seq<u8>) -> BallHitInfo {
        BallHitInfo {
            is_valid: <bool as FromBytes>::dec(s.subrange(0, 1)),
            relative_pos_on_ball: Vec3::dec(s.subrange(1, 13)),
            ball_pos: Vec3::dec(s.subrange(13, 25)),
            extra_hit_vel: Vec3::dec(s.subrange(25, 37)),
            tick_count_when_hit: <u64 as FromBytes>::dec(s.subrange(37, 45)),
            tick_count_when_extra_impulse_applied: <u64 as FromBytes>::dec(s.subrange(45, 53)),
        }
    }

    fn from_bytes(bytes: &[u8]) -> (r: Result<Self, WireError>) {
        if bytes.len() != 53 {
            return Err(WireError::FormatError);
        }
        let mut reader = ByteReader::new(bytes);
        let is_valid = reader.read::<bool>()?;
        let relative_pos_on_ball = reader.read::<Vec3>()?;
        let ball_pos = reader.read::<Vec3>()?;
        let extra_hit_vel = reader.read::<Vec3>()?;
        let tick_count_when_hit = reader.read::<u64>()?;
        let tick_count_when_extra_impulse_applied = reader.read::<u64>()?;
        reader.debug_assert_num_bytes(53);
        Ok(BallHitInfo {
            is_valid,
            relative_pos_on_ball,
            ball_pos,
            extra_hit_vel,
            tick_count_when_hit,
            tick_count_when_extra_impulse_applied,
        })
    }
}

impl FromBytesExact for BallHitInfo {
    open spec fn spec_num_bytes() -> nat {
        53
    }

    fn num_bytes() -> usize {
        53
    }

    proof fn lemma_dec_ok_len(s: Seq<u8>) {
    }
}

impl ToBytesExact for BallHitInfo {
    open spec fn enc(&self) -> Seq<u8> {
        self.is_valid.enc() + self.relative_pos_on_ball.enc() + self.ball_pos.enc()
            + self.extra_hit_vel.enc() + self.tick_count_when_hit.enc()
            + self.tick_count_when_extra_impulse_applied.enc()
    }

    fn to_bytes(&self) -> (out: Vec<u8>) {
        let mut writer = ByteWriter::new();
        writer.write(&self.is_valid);
        writer.write(&self.relative_pos_on_ball);
        writer.write(&self.ball_pos);
        writer.write(&self.extra_hit_vel);
        writer.write(&self.tick_count_when_hit);
        writer.write(&self.tick_count_when_extra_impulse_applied);
        writer.inner()
    }

    proof fn lemma_enc_len(&self) {
        lemma_u32_le_facts();
        lemma_auto_spec_u64_to_from_le_bytes();
        self.relative_pos_on_ball.lemma_enc_len();
        self.ball_pos.lemma_enc_len();
        self.extra_hit_vel.lemma_enc_len();
    }

    proof fn lemma_round_trip(&self) {
        self.lemma_enc_len();
        self.relative_pos_on_ball.lemma_round_trip();
        self.ball_pos.lemma_round_trip();
        self.extra_hit_vel.lemma_round_trip();
        lemma_auto_spec_u64_to_from_le_bytes();
        let s = self.enc();
        assert(s.subrange(0, 1) =~= self.is_valid.enc());
        assert(s.subrange(1, 13) =~= self.relative_pos_on_ball.enc());
        assert(s.subrange(13, 25) =~= self.ball_pos.enc());
        assert(s.subrange(25, 37) =~= self.extra_hit_vel.enc());
        assert(s.subrange(37, 45) =~= self.tick_count_when_hit.enc());
        assert(s.subrange(45, 53) =~= self.tick_count_when_extra_impulse_applied.enc());
    }
}

/// The ball's full physical state.
///
/// Wire order starts with the update counter, then position, orientation,
/// velocities, and the heat-seeker mode scalars.
#[derive(Clone, Copy, Debug, PartialEq, Eq)]
pub struct BallState {
    pub pos: Vec3,
    pub rot_mat: RotMat,
    pub vel: Vec3,
    pub ang_vel: Vec3,
    pub update_counter: u64,
    pub heatseeker_target_dir: u32,
    pub heatseeker_target_speed: u32,
    pub heatseeker_time_since_hit: u32,
}

impl View for BallState {
    type V = BallState;

    open spec fn view(&self) -> BallState {
        *self
    }
}

impl FromBytes for BallState {
    open spec fn dec_ok(s: Seq<u8>) -> bool {
        s.len() == 92
    }

    open spec fn dec(s: Seq<u8>) -> BallState {
        BallState {
            update_counter: <u64 as FromBytes>::dec(s.subrange(0, 8)),
            pos: Vec3::dec(s.subrange(8, 20)),
            rot_mat: RotMat::dec(s.subrange(20, 56)),
            vel: Vec3::dec(s.subrange(56, 68)),
            ang_vel: Vec3::dec(s.subrange(68, 80)),
            heatseeker_target_dir: <u32 as FromBytes>::dec(s.subrange(80, 84)),
            heatseeker_target_speed: <u32 as FromBytes>::dec(s.subrange(84, 88)),
            heatseeker_time_since_hit: <u32 as FromBytes>::dec(s.subrange(88, 92)),
        }
    }

    fn from_bytes(bytes: &[u8]) -> (r: Result<Self, WireError>) {
        if bytes.len() != 92 {
            return Err(WireError::FormatError);
        }
        let mut reader = ByteReader::new(bytes);
        let update_counter = reader.read::<u64>()?;
        let pos = reader.read::<Vec3>()?;
        let rot_mat = reader.read::<RotMat>()?;
        let vel = reader.read::<Vec3>()?;
        let ang_vel = reader.read::<Vec3>()?;
        let heatseeker_target_dir = reader.read::<u32>()?;
        let heatseeker_target_speed = reader.read::<u32>()?;
        let heatseeker_time_since_hit = reader.read::<u32>()?;
        reader.debug_assert_num_bytes(92);
        Ok(BallState {
            pos,
            rot_mat,
            vel,
            ang_vel,
            update_counter,
            heatseeker_target_dir,
            heatseeker_target_speed,
            heatseeker_time_since_hit,
        })
    }
}

impl FromBytesExact for BallState {
    open spec fn spec_num_bytes() -> nat {
        92
    }

    fn num_bytes() -> usize {
        92
    }

    proof fn lemma_dec_ok_len(s: Seq<u8>) {
    }
}

impl ToBytesExact for BallState {
    open spec fn enc(&self) -> Seq<u8> {
        self.update_counter.enc() + self.pos.enc() + self.rot_mat.enc() + self.vel.enc()
            + self.ang_vel.enc() + self.heatseeker_target_dir.enc()
            + self.heatseeker_target_speed.enc() + self.heatseeker_time_since_hit.enc()
    }

    fn to_bytes(&self) -> (out: Vec<u8>) {
        let mut writer = ByteWriter::new();
        writer.write(&self.update_counter);
        writer.write(&self.pos);
        writer.write(&self.rot_mat);
        writer.write(&self.vel);
        writer.write(&self.ang_vel);
        writer.write(&self.heatseeker_target_dir);
        writer.write(&self.heatseeker_target_speed);
        writer.write(&self.heatseeker_time_since_hit);
        writer.inner()
    }

    proof fn lemma_enc_len(&self) {
        lemma_u32_le_facts();
        lemma_auto_spec_u64_to_from_le_bytes();
        self.pos.lemma_enc_len();
        self.rot_mat.lemma_enc_len();
        self.vel.lemma_enc_len();
        self.ang_vel.lemma_enc_len();
    }

    proof fn lemma_round_trip(&self) {
        self.lemma_enc_len();
        self.pos.lemma_round_trip();
        self.rot_mat.lemma_round_trip();
        self.vel.lemma_round_trip();
        self.ang_vel.lemma_round_trip();
        lemma_u32_le_facts();
        lemma_auto_spec_u64_to_from_le_bytes();
        let s = self.enc();
        assert(s.subrange(0, 8) =~= self.update_counter.enc());
        assert(s.subrange(8, 20) =~= self.pos.enc());
        assert(s.subrange(20, 56) =~= self.rot_mat.enc());
        assert(s.subrange(56, 68) =~= self.vel.enc());
        assert(s.subrange(68, 80) =~= self.ang_vel.enc());
        assert(s.subrange(80, 84) =~= self.heatseeker_target_dir.enc());
        assert(s.subrange(84, 88) =~= self.heatseeker_target_speed.enc());
        assert(s.subrange(88, 92) =~= self.heatseeker_time_since_hit.enc());
    }
}

} // verus!

verus! {

/// Suspension and wheel geometry for one axle pair.
#[derive(Clone, Copy, Debug, PartialEq, Eq)]
pub struct WheelPairConfig {
    pub wheel_radius: u32,
    pub suspension_rest_length: u32,
    pub connection_point_offset: Vec3,
}

impl View for WheelPairConfig {
    type V = WheelPairConfig;

    open spec fn view(&self) -> WheelPairConfig {
        *self
    }
}

impl FromBytes for WheelPairConfig {
    open spec fn dec_ok(s: Seq<u8>) -> bool {
        s.len() == 20
    }

    open spec fn dec(s: Seq<u8>) -> WheelPairConfig {
        WheelPairConfig {
            wheel_radius: <u32 as FromBytes>::dec(s.subrange(0, 4)),
            suspension_rest_length: <u32 as FromBytes>::dec(s.subrange(4, 8)),
            connection_point_offset: Vec3::dec(s.subrange(8, 20)),
        }
    }

    fn from_bytes(bytes: &[u8]) -> (r: Result<Self, WireError>) {
        if bytes.len() != 20 {
            return Err(WireError::FormatError);
        }
        let mut reader = ByteReader::new(bytes);
        let wheel_radius = reader.read::<u32>()?;
        let suspension_rest_length = reader.read::<u32>()?;
        let connection_point_offset = reader.read::<Vec3>()?;
        reader.debug_assert_num_bytes(20);
        Ok(WheelPairConfig { wheel_radius, suspension_rest_length, connection_point_offset })
    }
}

impl FromBytesExact for WheelPairConfig {
    open spec fn spec_num_bytes() -> nat {
        20
    }

    fn num_bytes() -> usize {
        20
    }

    proof fn lemma_dec_ok_len(s: Seq<u8>) {
    }
}

impl ToBytesExact for WheelPairConfig {
    open spec fn enc(&self) -> Seq<u8> {
        self.wheel_radius.enc() + self.suspension_rest_length.enc()
            + self.connection_point_offset.enc()
    }

    fn to_bytes(&self) -> (out: Vec<u8>) {
        let mut writer = ByteWriter::new();
        writer.write(&self.wheel_radius);
        writer.write(&self.suspension_rest_length);
        writer.write(&self.connection_point_offset);
        writer.inner()
    }

    proof fn lemma_enc_len(&self) {
        lemma_u32_le_facts();
        self.connection_point_offset.lemma_enc_len();
    }

    proof fn lemma_round_trip(&self) {
        self.lemma_enc_len();
        self.connection_point_offset.lemma_round_trip();
        lemma_u32_le_facts();
        let s = self.enc();
        assert(s.subrange(0, 4) =~= self.wheel_radius.enc());
        assert(s.subrange(4, 8) =~= self.suspension_rest_length.enc());
        assert(s.subrange(8, 20) =~= self.connection_point_offset.enc());
    }
}

/// The shape of a car: hitbox, axle geometry, and dodge deadzone.
#[derive(Clone, Copy, Debug, PartialEq, Eq)]
pub struct CarConfig {
    pub hitbox_size: Vec3,
    pub hitbox_pos_offset: Vec3,
    pub front_wheels: WheelPairConfig,
    pub back_wheels: WheelPairConfig,
    pub dodge_deadzone: u32,
}

impl View for CarConfig {
    type V = CarConfig;

    open spec fn view(&self) -> CarConfig {
        *self
    }
}

impl FromBytes for CarConfig {
    open spec fn dec_ok(s: Seq<u8>) -> bool {
        s.len() == 68
    }

    open spec fn dec(s: Seq<u8>) -> CarConfig {
        CarConfig {
            hitbox_size: Vec3::dec(s.subrange(0, 12)),
            hitbox_pos_offset: Vec3::dec(s.subrange(12, 24)),
            front_wheels: WheelPairConfig::dec(s.subrange(24, 44)),
            back_wheels: WheelPairConfig::dec(s.subrange(44, 64)),
            dodge_deadzone: <u32 as FromBytes>::dec(s.subrange(64, 68)),
        }
    }

    fn from_bytes(bytes: &[u8]) -> (r: Result<Self, WireError>) {
        if bytes.len() != 68 {
            return Err(WireError::FormatError);
        }
        let mut reader = ByteReader::new(bytes);
        let hitbox_size = reader.read::<Vec3>()?;
        let hitbox_pos_offset = reader.read::<Vec3>()?;
        let front_wheels = reader.read::<WheelPairConfig>()?;
        let back_wheels = reader.read::<WheelPairConfig>()?;
        let dodge_deadzone = reader.read::<u32>()?;
        reader.debug_assert_num_bytes(68);
        Ok(CarConfig { hitbox_size, hitbox_pos_offset, front_wheels, back_wheels, dodge_deadzone })
    }
}

impl FromBytesExact for CarConfig {
    open spec fn spec_num_bytes() -> nat {
        68
    }

    fn num_bytes() -> usize {
        68
    }

    proof fn lemma_dec_ok_len(s: Seq<u8>) {
    }
}

impl ToBytesExact for CarConfig {
    open spec fn enc(&self) -> Seq<u8> {
        self.hitbox_size.enc() + self.hitbox_pos_offset.enc() + self.front_wheels.enc()
            + self.back_wheels.enc() + self.dodge_deadzone.enc()
    }

    fn to_bytes(&self) -> (out: Vec<u8>) {
        let mut writer = ByteWriter::new();
        writer.write(&self.hitbox_size);
        writer.write(&self.hitbox_pos_offset);
        writer.write(&self.front_wheels);
        writer.write(&self.back_wheels);
        writer.write(&self.dodge_deadzone);
        writer.inner()
    }

    proof fn lemma_enc_len(&self) {
        lemma_u32_le_facts();
        self.hitbox_size.lemma_enc_len();
        self.hitbox_pos_offset.lemma_enc_len();
        self.front_wheels.lemma_enc_len();
        self.back_wheels.lemma_enc_len();
    }

    proof fn lemma_round_trip(&self) {
        self.lemma_enc_len();
        self.hitbox_size.lemma_round_trip();
        self.hitbox_pos_offset.lemma_round_trip();
        self.front_wheels.lemma_round_trip();
        self.back_wheels.lemma_round_trip();
        lemma_u32_le_facts();
        let s = self.enc();
        assert(s.subrange(0, 12) =~= self.hitbox_size.enc());
        assert(s.subrange(12, 24) =~= self.hitbox_pos_offset.enc());
        assert(s.subrange(24, 44) =~= self.front_wheels.enc());
        assert(s.subrange(44, 64) =~= self.back_wheels.enc());
        assert(s.subrange(64, 68) =~= self.dodge_deadzone.enc());
    }
}

/// The driver inputs last applied to a car. The five analog axes are
/// IEEE-754 bit patterns; the three buttons are single bytes.
#[derive(Clone, Copy, Debug, PartialEq, Eq)]
pub struct CarControls {
    pub throttle: u32,
    pub steer: u32,
    pub pitch: u32,
    pub yaw: u32,
    pub roll: u32,
    pub boost: bool,
    pub jump: bool,
    pub handbrake: bool,
}

impl View for CarControls {
    type V = CarControls;

    open spec fn view(&self) -> CarControls {
        *self
    }
}

impl FromBytes for CarControls {
    open spec fn dec_ok(s: Seq<u8>) -> bool {
        s.len() == 23
    }

    open spec fn dec(s: Seq<u8>) -> CarControls {
        CarControls {
            throttle: <u32 as FromBytes>::dec(s.subrange(0, 4)),
            steer: <u32 as FromBytes>::dec(s.subrange(4, 8)),
            pitch: <u32 as FromBytes>::dec(s.subrange(8, 12)),
            yaw: <u32 as FromBytes>::dec(s.subrange(12, 16)),
            roll: <u32 as FromBytes>::dec(s.subrange(16, 20)),
            boost: <bool as FromBytes>::dec(s.subrange(20, 21)),
            jump: <bool as FromBytes>::dec(s.subrange(21, 22)),
            handbrake: <bool as FromBytes>::dec(s.subrange(22, 23)),
        }
    }

    fn from_bytes(bytes: &[u8]) -> (r: Result<Self, WireError>) {
        if bytes.len() != 23 {
            return Err(WireError::FormatError);
        }
        let mut reader = ByteReader::new(bytes);
        let throttle = reader.read::<u32>()?;
        let steer = reader.read::<u32>()?;
        let pitch = reader.read::<u32>()?;
        let yaw = reader.read::<u32>()?;
        let roll = reader.read::<u32>()?;
        let boost = reader.read::<bool>()?;
        let jump = reader.read::<bool>()?;
        let handbrake = reader.read::<bool>()?;
        reader.debug_assert_num_bytes(23);
        Ok(CarControls { throttle, steer, pitch, yaw, roll, boost, jump, handbrake })
    }
}

impl FromBytesExact for CarControls {
    open spec fn spec_num_bytes() -> nat {
        23
    }

    fn num_bytes() -> usize {
        23
    }

    proof fn lemma_dec_ok_len(s: Seq<u8>) {
    }
}

impl ToBytesExact for CarControls {
    open spec fn enc(&self) -> Seq<u8> {
        self.throttle.enc() + self.steer.enc() + self.pitch.enc() + self.yaw.enc()
            + self.roll.enc() + self.boost.enc() + self.jump.enc() + self.handbrake.enc()
    }

    fn to_bytes(&self) -> (out: Vec<u8>) {
        let mut writer = ByteWriter::new();
        writer.write(&self.throttle);
        writer.write(&self.steer);
        writer.write(&self.pitch);
        writer.write(&self.yaw);
        writer.write(&self.roll);
        writer.write(&self.boost);
        writer.write(&self.jump);
        writer.write(&self.handbrake);
        writer.inner()
    }

    proof fn lemma_enc_len(&self) {
        lemma_u32_le_facts();
    }

    proof fn lemma_round_trip(&self) {
        self.lemma_enc_len();
        lemma_u32_le_facts();
        let s = self.enc();
        assert(s.subrange(0, 4) =~= self.throttle.enc());
        assert(s.subrange(4, 8) =~= self.steer.enc());
        assert(s.subrange(8, 12) =~= self.pitch.enc());
        assert(s.subrange(12, 16) =~= self.yaw.enc());
        assert(s.subrange(16, 20) =~= self.roll.enc());
        assert(s.subrange(20, 21) =~= self.boost.enc());
        assert(s.subrange(21, 22) =~= self.jump.enc());
        assert(s.subrange(22, 23) =~= self.handbrake.enc());
    }
}

/// Ground contact of the four wheels, one byte each in wire order
/// front-left, front-right, back-left, back-right.
#[derive(Clone, Copy, Debug, PartialEq, Eq)]
pub struct WheelsWithContact {
    pub front_left: bool,
    pub front_right: bool,
    pub back_left: bool,
    pub back_right: bool,
}

impl View for WheelsWithContact {
    type V = WheelsWithContact;

    open spec fn view(&self) -> WheelsWithContact {
        *self
    }
}

impl FromBytes for WheelsWithContact {
    open spec fn dec_ok(s: Seq<u8>) -> bool {
        s.len() == 4
    }

    open spec fn dec(s: Seq<u8>) -> WheelsWithContact {
        WheelsWithContact {
            front_left: <bool as FromBytes>::dec(s.subrange(0, 1)),
            front_right: <bool as FromBytes>::dec(s.subrange(1, 2)),
            back_left: <bool as FromBytes>::dec(s.subrange(2, 3)),
            back_right: <bool as FromBytes>::dec(s.subrange(3, 4)),
        }
    }

    fn from_bytes(bytes: &[u8]) -> (r: Result<Self, WireError>) {
        if bytes.len() != 4 {
            return Err(WireError::FormatError);
        }
        let mut reader = ByteReader::new(bytes);
        let front_left = reader.read::<bool>()?;
        let front_right = reader.read::<bool>()?;
        let back_left = reader.read::<bool>()?;
        let back_right = reader.read::<bool>()?;
        reader.debug_assert_num_bytes(4);
        Ok(WheelsWithContact { front_left, front_right, back_left, back_right })
    }
}

impl FromBytesExact for WheelsWithContact {
    open spec fn spec_num_bytes() -> nat {
        4
    }

    fn num_bytes() -> usize {
        4
    }

    proof fn lemma_dec_ok_len(s: Seq<u8>) {
    }
}

impl ToBytesExact for WheelsWithContact {
    open spec fn enc(&self) -> Seq<u8> {
        self.front_left.enc() + self.front_right.enc() + self.back_left.enc()
            + self.back_right.enc()
    }

    fn to_bytes(&self) -> (out: Vec<u8>) {
        let mut writer = ByteWriter::new();
        writer.write(&self.front_left);
        writer.write(&self.front_right);
        writer.write(&self.back_left);
        writer.write(&self.back_right);
        writer.inner()
    }

    proof fn lemma_enc_len(&self) {
    }

    proof fn lemma_round_trip(&self) {
        let s = self.enc();
        assert(s.subrange(0, 1) =~= self.front_left.enc());
        assert(s.subrange(1, 2) =~= self.front_right.enc());
        assert(s.subrange(2, 3) =~= self.back_left.enc());
        assert(s.subrange(3, 4) =~= self.back_right.enc());
    }
}

} // verus!

verus! {

/// A car's full physical and gameplay state.
///
/// Wire order is the declared member order below except that the update
/// counter leads the record, as for [`BallState`].
#[derive(Clone, Copy, Debug, PartialEq, Eq)]
pub struct CarState {
    pub pos: Vec3,
    pub rot_mat: RotMat,
    pub vel: Vec3,
    pub ang_vel: Vec3,
    pub update_counter: u64,
    pub is_on_ground: bool,
    pub wheels_with_contact: WheelsWithContact,
    pub has_jumped: bool,
    pub has_double_jumped: bool,
    pub has_flipped: bool,
    pub flip_rel_torque: Vec3,
    pub jump_time: u32,
    pub flip_time: u32,
    pub is_flipping: bool,
    pub is_jumping: bool,
    pub air_time: u32,
    pub air_time_since_jump: u32,
    pub boost: u32,
    pub time_spent_boosting: u32,
    pub is_supersonic: bool,
    pub supersonic_time: u32,
    pub handbrake_val: u32,
    pub is_auto_flipping: bool,
    pub auto_flip_timer: u32,
    pub auto_flip_torque_scale: u32,
    pub has_world_contact: bool,
    pub world_contact_normal: Vec3,
    pub car_contact_id: u32,
    pub car_contact_cooldown_timer: u32,
    pub is_demoed: bool,
    pub demo_respawn_timer: u32,
    pub ball_hit_info: BallHitInfo,
    pub last_controls: CarControls,
}

impl View for CarState {
    type V = CarState;

    open spec fn view(&self) -> CarState {
        *self
    }
}

impl FromBytes for CarState {
    open spec fn dec_ok(s: Seq<u8>) -> bool {
        s.len() == 246
    }

    open spec fn dec(s: Seq<u8>) -> CarState {
        CarState {
            update_counter: <u64 as FromBytes>::dec(s.subrange(0, 8)),
            pos: Vec3::dec(s.subrange(8, 20)),
            rot_mat: RotMat::dec(s.subrange(20, 56)),
            vel: Vec3::dec(s.subrange(56, 68)),
            ang_vel: Vec3::dec(s.subrange(68, 80)),
            is_on_ground: <bool as FromBytes>::dec(s.subrange(80, 81)),
            wheels_with_contact: WheelsWithContact::dec(s.subrange(81, 85)),
            has_jumped: <bool as FromBytes>::dec(s.subrange(85, 86)),
            has_double_jumped: <bool as FromBytes>::dec(s.subrange(86, 87)),
            has_flipped: <bool as FromBytes>::dec(s.subrange(87, 88)),
            flip_rel_torque: Vec3::dec(s.subrange(88, 100)),
            jump_time: <u32 as FromBytes>::dec(s.subrange(100, 104)),
            flip_time: <u32 as FromBytes>::dec(s.subrange(104, 108)),
            is_flipping: <bool as FromBytes>::dec(s.subrange(108, 109)),
            is_jumping: <bool as FromBytes>::dec(s.subrange(109, 110)),
            air_time: <u32 as FromBytes>::dec(s.subrange(110, 114)),
            air_time_since_jump: <u32 as FromBytes>::dec(s.subrange(114, 118)),
            boost: <u32 as FromBytes>::dec(s.subrange(118, 122)),
            time_spent_boosting: <u32 as FromBytes>::dec(s.subrange(122, 126)),
            is_supersonic: <bool as FromBytes>::dec(s.subrange(126, 127)),
            supersonic_time: <u32 as FromBytes>::dec(s.subrange(127, 131)),
            handbrake_val: <u32 as FromBytes>::dec(s.subrange(131, 135)),
            is_auto_flipping: <bool as FromBytes>::dec(s.subrange(135, 136)),
            auto_flip_timer: <u32 as FromBytes>::dec(s.subrange(136, 140)),
            auto_flip_torque_scale: <u32 as FromBytes>::dec(s.subrange(140, 144)),
            has_world_contact: <bool as FromBytes>::dec(s.subrange(144, 145)),
            world_contact_normal: Vec3::dec(s.subrange(145, 157)),
            car_contact_id: <u32 as FromBytes>::dec(s.subrange(157, 161)),
            car_contact_cooldown_timer: <u32 as FromBytes>::dec(s.subrange(161, 165)),
            is_demoed: <bool as FromBytes>::dec(s.subrange(165, 166)),
            demo_respawn_timer: <u32 as FromBytes>::dec(s.subrange(166, 170)),
            ball_hit_info: BallHitInfo::dec(s.subrange(170, 223)),
            last_controls: CarControls::dec(s.subrange(223, 246)),
        }
    }

    fn from_bytes(bytes: &[u8]) -> (r: Result<Self, WireError>) {
        if bytes.len() != 246 {
            return Err(WireError::FormatError);
        }
        let mut reader = ByteReader::new(bytes);
        let update_counter = reader.read::<u64>()?;
        let pos = reader.read::<Vec3>()?;
        let rot_mat = reader.read::<RotMat>()?;
        let vel = reader.read::<Vec3>()?;
        let ang_vel = reader.read::<Vec3>()?;
        let is_on_ground = reader.read::<bool>()?;
        let wheels_with_contact = reader.read::<WheelsWithContact>()?;
        let has_jumped = reader.read::<bool>()?;
        let has_double_jumped = reader.read::<bool>()?;
        let has_flipped = reader.read::<bool>()?;
        let flip_rel_torque = reader.read::<Vec3>()?;
        let jump_time = reader.read::<u32>()?;
        let flip_time = reader.read::<u32>()?;
        let is_flipping = reader.read::<bool>()?;
        let is_jumping = reader.read::<bool>()?;
        let air_time = reader.read::<u32>()?;
        let air_time_since_jump = reader.read::<u32>()?;
        let boost = reader.read::<u32>()?;
        let time_spent_boosting = reader.read::<u32>()?;
        let is_supersonic = reader.read::<bool>()?;
        let supersonic_time = reader.read::<u32>()?;
        let handbrake_val = reader.read::<u32>()?;
        let is_auto_flipping = reader.read::<bool>()?;
        let auto_flip_timer = reader.read::<u32>()?;
        let auto_flip_torque_scale = reader.read::<u32>()?;
        let has_world_contact = reader.read::<bool>()?;
        let world_contact_normal = reader.read::<Vec3>()?;
        let car_contact_id = reader.read::<u32>()?;
        let car_contact_cooldown_timer = reader.read::<u32>()?;
        let is_demoed = reader.read::<bool>()?;
        let demo_respawn_timer = reader.read::<u32>()?;
        let ball_hit_info = reader.read::<BallHitInfo>()?;
        let last_controls = reader.read::<CarControls>()?;
        reader.debug_assert_num_bytes(246);
        Ok(CarState {
            pos,
            rot_mat,
            vel,
            ang_vel,
            update_counter,
            is_on_ground,
            wheels_with_contact,
            has_jumped,
            has_double_jumped,
            has_flipped,
            flip_rel_torque,
            jump_time,
            flip_time,
            is_flipping,
            is_jumping,
            air_time,
            air_time_since_jump,
            boost,
            time_spent_boosting,
            is_supersonic,
            supersonic_time,
            handbrake_val,
            is_auto_flipping,
            auto_flip_timer,
            auto_flip_torque_scale,
            has_world_contact,
            world_contact_normal,
            car_contact_id,
            car_contact_cooldown_timer,
            is_demoed,
            demo_respawn_timer,
            ball_hit_info,
            last_controls,
        })
    }
}

impl FromBytesExact for CarState {
    open spec fn spec_num_bytes() -> nat {
        246
    }

    fn num_bytes() -> usize {
        246
    }

    proof fn lemma_dec_ok_len(s: Seq<u8>) {
    }
}

impl ToBytesExact for CarState {
    open spec fn enc(&self) -> Seq<u8> {
        self.update_counter.enc() + self.pos.enc() + self.rot_mat.enc() + self.vel.enc()
            + self.ang_vel.enc() + self.is_on_ground.enc() + self.wheels_with_contact.enc()
            + self.has_jumped.enc() + self.has_double_jumped.enc() + self.has_flipped.enc()
            + self.flip_rel_torque.enc() + self.jump_time.enc() + self.flip_time.enc()
            + self.is_flipping.enc() + self.is_jumping.enc() + self.air_time.enc()
            + self.air_time_since_jump.enc() + self.boost.enc() + self.time_spent_boosting.enc()
            + self.is_supersonic.enc() + self.supersonic_time.enc() + self.handbrake_val.enc()
            + self.is_auto_flipping.enc() + self.auto_flip_timer.enc()
            + self.auto_flip_torque_scale.enc() + self.has_world_contact.enc()
            + self.world_contact_normal.enc() + self.car_contact_id.enc()
            + self.car_contact_cooldown_timer.enc() + self.is_demoed.enc()
            + self.demo_respawn_timer.enc() + self.ball_hit_info.enc() + self.last_controls.enc()
    }

    fn to_bytes(&self) -> (out: Vec<u8>) {
        let mut writer = ByteWriter::new();
        writer.write(&self.update_counter);
        writer.write(&self.pos);
        writer.write(&self.rot_mat);
        writer.write(&self.vel);
        writer.write(&self.ang_vel);
        writer.write(&self.is_on_ground);
        writer.write(&self.wheels_with_contact);
        writer.write(&self.has_jumped);
        writer.write(&self.has_double_jumped);
        writer.write(&self.has_flipped);
        writer.write(&self.flip_rel_torque);
        writer.write(&self.jump_time);
        writer.write(&self.flip_time);
        writer.write(&self.is_flipping);
        writer.write(&self.is_jumping);
        writer.write(&self.air_time);
        writer.write(&self.air_time_since_jump);
        writer.write(&self.boost);
        writer.write(&self.time_spent_boosting);
        writer.write(&self.is_supersonic);
        writer.write(&self.supersonic_time);
        writer.write(&self.handbrake_val);
        writer.write(&self.is_auto_flipping);
        writer.write(&self.auto_flip_timer);
        writer.write(&self.auto_flip_torque_scale);
        writer.write(&self.has_world_contact);
        writer.write(&self.world_contact_normal);
        writer.write(&self.car_contact_id);
        writer.write(&self.car_contact_cooldown_timer);
        writer.write(&self.is_demoed);
        writer.write(&self.demo_respawn_timer);
        writer.write(&self.ball_hit_info);
        writer.write(&self.last_controls);
        writer.inner()
    }

    #[verifier::rlimit(50)]
    #[verifier::spinoff_prover]
    proof fn lemma_enc_len(&self) {
        lemma_u32_le_facts();
        lemma_auto_spec_u64_to_from_le_bytes();
        self.pos.lemma_enc_len();
        self.rot_mat.lemma_enc_len();
        self.flip_rel_torque.lemma_enc_len();
        self.world_contact_normal.lemma_enc_len();
        self.ball_hit_info.lemma_enc_len();
        self.last_controls.lemma_enc_len();
    }

    #[verifier::rlimit(100)]
    #[verifier::spinoff_prover]
    proof fn lemma_round_trip(&self) {
        self.lemma_enc_len();
        self.pos.lemma_enc_len();
        self.pos.lemma_round_trip();
        self.rot_mat.lemma_enc_len();
        self.rot_mat.lemma_round_trip();
        self.vel.lemma_enc_len();
        self.vel.lemma_round_trip();
        self.ang_vel.lemma_enc_len();
        self.ang_vel.lemma_round_trip();
        self.flip_rel_torque.lemma_enc_len();
        self.flip_rel_torque.lemma_round_trip();
        self.world_contact_normal.lemma_enc_len();
        self.world_contact_normal.lemma_round_trip();
        self.ball_hit_info.lemma_enc_len();
        self.ball_hit_info.lemma_round_trip();
        self.last_controls.lemma_enc_len();
        self.last_controls.lemma_round_trip();
        self.wheels_with_contact.lemma_enc_len();
        self.wheels_with_contact.lemma_round_trip();
        lemma_u32_le_facts();
        lemma_auto_spec_u64_to_from_le_bytes();
        let e1 = self.update_counter.enc();
        let e2 = self.pos.enc();
        let e3 = self.rot_mat.enc();
        let e4 = self.vel.enc();
        let e5 = self.ang_vel.enc();
        let e6 = self.is_on_ground.enc();
        let e7 = self.wheels_with_contact.enc();
        let e8 = self.has_jumped.enc();
        let e9 = self.has_double_jumped.enc();
        let e10 = self.has_flipped.enc();
        let e11 = self.flip_rel_torque.enc();
        let e12 = self.jump_time.enc();
        let e13 = self.flip_time.enc();
        let e14 = self.is_flipping.enc();
        let e15 = self.is_jumping.enc();
        let e16 = self.air_time.enc();
        let e17 = self.air_time_since_jump.enc();
        let e18 = self.boost.enc();
        let e19 = self.time_spent_boosting.enc();
        let e20 = self.is_supersonic.enc();
        let e21 = self.supersonic_time.enc();
        let e22 = self.handbrake_val.enc();
        let e23 = self.is_auto_flipping.enc();
        let e24 = self.auto_flip_timer.enc();
        let e25 = self.auto_flip_torque_scale.enc();
        let e26 = self.has_world_contact.enc();
        let e27 = self.world_contact_normal.enc();
        let e28 = self.car_contact_id.enc();
        let e29 = self.car_contact_cooldown_timer.enc();
        let e30 = self.is_demoed.enc();
        let e31 = self.demo_respawn_timer.enc();
        let e32 = self.ball_hit_info.enc();
        let e33 = self.last_controls.enc();
        let p1 = e1;
        let p2 = p1 + e2;
        let p3 = p2 + e3;
        let p4 = p3 + e4;
        let p5 = p4 + e5;
        let p6 = p5 + e6;
        let p7 = p6 + e7;
        let p8 = p7 + e8;
        let p9 = p8 + e9;
        let p10 = p9 + e10;
        let p11 = p10 + e11;
        let p12 = p11 + e12;
        let p13 = p12 + e13;
        let p14 = p13 + e14;
        let p15 = p14 + e15;
        let p16 = p15 + e16;
        let p17 = p16 + e17;
        let p18 = p17 + e18;
        let p19 = p18 + e19;
        let p20 = p19 + e20;
        let p21 = p20 + e21;
        let p22 = p21 + e22;
        let p23 = p22 + e23;
        let p24 = p23 + e24;
        let p25 = p24 + e25;
        let p26 = p25 + e26;
        let p27 = p26 + e27;
        let p28 = p27 + e28;
        let p29 = p28 + e29;
        let p30 = p29 + e30;
        let p31 = p30 + e31;
        let p32 = p31 + e32;
        let p33 = p32 + e33;
        let s = self.enc();
        assert(s == p33);
        assert(e1.len() == 8);
        assert(e2.len() == 12);
        assert(e3.len() == 36);
        assert(e4.len() == 12);
        assert(e5.len() == 12);
        assert(e6.len() == 1);
        assert(e7.len() == 4);
        assert(e8.len() == 1);
        assert(e9.len() == 1);
        assert(e10.len() == 1);
        assert(e11.len() == 12);
        assert(e12.len() == 4);
        assert(e13.len() == 4);
        assert(e14.len() == 1);
        assert(e15.len() == 1);
        assert(e16.len() == 4);
        assert(e17.len() == 4);
        assert(e18.len() == 4);
        assert(e19.len() == 4);
        assert(e20.len() == 1);
        assert(e21.len() == 4);
        assert(e22.len() == 4);
        assert(e23.len() == 1);
        assert(e24.len() == 4);
        assert(e25.len() == 4);
        assert(e26.len() == 1);
        assert(e27.len() == 12);
        assert(e28.len() == 4);
        assert(e29.len() == 4);
        assert(e30.len() == 1);
        assert(e31.len() == 4);
        assert(e32.len() == 53);
        assert(e33.len() == 23);
        lemma_concat_split(p32, e33);
        // now s.subrange(0, 223) == p32 and s.subrange(223, 246) == e33
        lemma_concat_split(p31, e32);
        lemma_subrange_of_prefix(s, p32, 170, 223);
        lemma_subrange_of_prefix(s, p32, 0, 170);
        lemma_concat_split(p30, e31);
        lemma_subrange_of_prefix(s, p31, 166, 170);
        lemma_subrange_of_prefix(s, p31, 0, 166);
        lemma_concat_split(p29, e30);
        lemma_subrange_of_prefix(s, p30, 165, 166);
        lemma_subrange_of_prefix(s, p30, 0, 165);
        lemma_concat_split(p28, e29);
        lemma_subrange_of_prefix(s, p29, 161, 165);
        lemma_subrange_of_prefix(s, p29, 0, 161);
        lemma_concat_split(p27, e28);
        lemma_subrange_of_prefix(s, p28, 157, 161);
        lemma_subrange_of_prefix(s, p28, 0, 157);
        lemma_concat_split(p26, e27);
        lemma_subrange_of_prefix(s, p27, 145, 157);
        lemma_subrange_of_prefix(s, p27, 0, 145);
        lemma_concat_split(p25, e26);
        lemma_subrange_of_prefix(s, p26, 144, 145);
        lemma_subrange_of_prefix(s, p26, 0, 144);
        lemma_concat_split(p24, e25);
        lemma_subrange_of_prefix(s, p25, 140, 144);
        lemma_subrange_of_prefix(s, p25, 0, 140);
        lemma_concat_split(p23, e24);
        lemma_subrange_of_prefix(s, p24, 136, 140);
        lemma_subrange_of_prefix(s, p24, 0, 136);
        lemma_concat_split(p22, e23);
        lemma_subrange_of_prefix(s, p23, 135, 136);
        lemma_subrange_of_prefix(s, p23, 0, 135);
        lemma_concat_split(p21, e22);
        lemma_subrange_of_prefix(s, p22, 131, 135);
        lemma_subrange_of_prefix(s, p22, 0, 131);
        lemma_concat_split(p20, e21);
        lemma_subrange_of_prefix(s, p21, 127, 131);
        lemma_subrange_of_prefix(s, p21, 0, 127);
        lemma_concat_split(p19, e20);
        lemma_subrange_of_prefix(s, p20, 126, 127);
        lemma_subrange_of_prefix(s, p20, 0, 126);
        lemma_concat_split(p18, e19);
        lemma_subrange_of_prefix(s, p19, 122, 126);
        lemma_subrange_of_prefix(s, p19, 0, 122);
        lemma_concat_split(p17, e18);
        lemma_subrange_of_prefix(s, p18, 118, 122);
        lemma_subrange_of_prefix(s, p18, 0, 118);
        lemma_concat_split(p16, e17);
        lemma_subrange_of_prefix(s, p17, 114, 118);
        lemma_subrange_of_prefix(s, p17, 0, 114);
        lemma_concat_split(p15, e16);
        lemma_subrange_of_prefix(s, p16, 110, 114);
        lemma_subrange_of_prefix(s, p16, 0, 110);
        lemma_concat_split(p14, e15);
        lemma_subrange_of_prefix(s, p15, 109, 110);
        lemma_subrange_of_prefix(s, p15, 0, 109);
        lemma_concat_split(p13, e14);
        lemma_subrange_of_prefix(s, p14, 108, 109);
        lemma_subrange_of_prefix(s, p14, 0, 108);
        lemma_concat_split(p12, e13);
        lemma_subrange_of_prefix(s, p13, 104, 108);
        lemma_subrange_of_prefix(s, p13, 0, 104);
        lemma_concat_split(p11, e12);
        lemma_subrange_of_prefix(s, p12, 100, 104);
        lemma_subrange_of_prefix(s, p12, 0, 100);
        lemma_concat_split(p10, e11);
        lemma_subrange_of_prefix(s, p11, 88, 100);
        lemma_subrange_of_prefix(s, p11, 0, 88);
        lemma_concat_split(p9, e10);
        lemma_subrange_of_prefix(s, p10, 87, 88);
        lemma_subrange_of_prefix(s, p10, 0, 87);
        lemma_concat_split(p8, e9);
        lemma_subrange_of_prefix(s, p9, 86, 87);
        lemma_subrange_of_prefix(s, p9, 0, 86);
        lemma_concat_split(p7, e8);
        lemma_subrange_of_prefix(s, p8, 85, 86);
        lemma_subrange_of_prefix(s, p8, 0, 85);
        lemma_concat_split(p6, e7);
        lemma_subrange_of_prefix(s, p7, 81, 85);
        lemma_subrange_of_prefix(s, p7, 0, 81);
        lemma_concat_split(p5, e6);
        lemma_subrange_of_prefix(s, p6, 80, 81);
        lemma_subrange_of_prefix(s, p6, 0, 80);
        lemma_concat_split(p4, e5);
        lemma_subrange_of_prefix(s, p5, 68, 80);
        lemma_subrange_of_prefix(s, p5, 0, 68);
        lemma_concat_split(p3, e4);
        lemma_subrange_of_prefix(s, p4, 56, 68);
        lemma_subrange_of_prefix(s, p4, 0, 56);
        lemma_concat_split(p2, e3);
        lemma_subrange_of_prefix(s, p3, 20, 56);
        lemma_subrange_of_prefix(s, p3, 0, 20);
        lemma_concat_split(p1, e2);
        lemma_subrange_of_prefix(s, p2, 8, 20);
        lemma_subrange_of_prefix(s, p2, 0, 8);
        assert(s.subrange(0, 8) == e1);
        assert(s.subrange(8, 20) == e2);
        assert(s.subrange(20, 56) == e3);
        assert(s.subrange(56, 68) == e4);
        assert(s.subrange(68, 80) == e5);
        assert(s.subrange(80, 81) == e6);
        assert(s.subrange(81, 85) == e7);
        assert(s.subrange(85, 86) == e8);
        assert(s.subrange(86, 87) == e9);
        assert(s.subrange(87, 88) == e10);
        assert(s.subrange(88, 100) == e11);
        assert(s.subrange(100, 104) == e12);
        assert(s.subrange(104, 108) == e13);
        assert(s.subrange(108, 109) == e14);
        assert(s.subrange(109, 110) == e15);
        assert(s.subrange(110, 114) == e16);
        assert(s.subrange(114, 118) == e17);
        assert(s.subrange(118, 122) == e18);
        assert(s.subrange(122, 126) == e19);
        assert(s.subrange(126, 127) == e20);
        assert(s.subrange(127, 131) == e21);
        assert(s.subrange(131, 135) == e22);
        assert(s.subrange(135, 136) == e23);
        assert(s.subrange(136, 140) == e24);
        assert(s.subrange(140, 144) == e25);
        assert(s.subrange(144, 145) == e26);
        assert(s.subrange(145, 157) == e27);
        assert(s.subrange(157, 161) == e28);
        assert(s.subrange(161, 165) == e29);
        assert(s.subrange(165, 166) == e30);
        assert(s.subrange(166, 170) == e31);
        assert(s.subrange(170, 223) == e32);
        assert(s.subrange(223, 246) == e33);
    }
}

/// One car in a snapshot: its identifier, team, state, and shape.
#[derive(Clone, Copy, Debug, PartialEq, Eq)]
pub struct CarInfo {
    pub id: u32,
    pub team: Team,
    pub state: CarState,
    pub config: CarConfig,
}

impl View for CarInfo {
    type V = CarInfo;

    open spec fn view(&self) -> CarInfo {
        *self
    }
}

impl FromBytes for CarInfo {
    open spec fn dec_ok(s: Seq<u8>) -> bool {
        s.len() == 319 && Team::dec_ok(s.subrange(4, 5))
    }

    open spec fn dec(s: Seq<u8>) -> CarInfo {
        CarInfo {
            id: <u32 as FromBytes>::dec(s.subrange(0, 4)),
            team: Team::dec(s.subrange(4, 5)),
            state: CarState::dec(s.subrange(5, 251)),
            config: CarConfig::dec(s.subrange(251, 319)),
        }
    }

    fn from_bytes(bytes: &[u8]) -> (r: Result<Self, WireError>) {
        if bytes.len() != 319 {
            return Err(WireError::FormatError);
        }
        let mut reader = ByteReader::new(bytes);
        let id = reader.read::<u32>()?;
        let team = reader.read::<Team>()?;
        let state = reader.read::<CarState>()?;
        let config = reader.read::<CarConfig>()?;
        reader.debug_assert_num_bytes(319);
        Ok(CarInfo { id, team, state, config })
    }
}

impl FromBytesExact for CarInfo {
    open spec fn spec_num_bytes() -> nat {
        319
    }

    fn num_bytes() -> usize {
        319
    }

    proof fn lemma_dec_ok_len(s: Seq<u8>) {
    }
}

impl ToBytesExact for CarInfo {
    open spec fn enc(&self) -> Seq<u8> {
        self.id.enc() + self.team.enc() + self.state.enc() + self.config.enc()
    }

    fn to_bytes(&self) -> (out: Vec<u8>) {
        let mut writer = ByteWriter::new();
        writer.write(&self.id);
        writer.write(&self.team);
        writer.write(&self.state);
        writer.write(&self.config);
        writer.inner()
    }

    proof fn lemma_enc_len(&self) {
        lemma_u32_le_facts();
        self.state.lemma_enc_len();
        self.config.lemma_enc_len();
    }

    proof fn lemma_round_trip(&self) {
        self.lemma_enc_len();
        self.team.lemma_round_trip();
        self.state.lemma_round_trip();
        self.config.lemma_round_trip();
        lemma_u32_le_facts();
        let s = self.enc();
        assert(s.subrange(0, 4) =~= self.id.enc());
        assert(s.subrange(4, 5) =~= self.team.enc());
        assert(s.subrange(5, 251) =~= self.state.enc());
        assert(s.subrange(251, 319) =~= self.config.enc());
    }
}

} // verus!

verus! {

/// Bit pattern of the IEEE-754 single-precision value 1.0.
pub const F32_ONE_BITS: u32 = 0x3F80_0000;

/// Bit pattern of the default ball spawn height above the playing
/// surface, 93.15.
pub const BALL_SPAWN_Z_BITS: u32 = 0x42BA_4CCD;

/// Bit pattern of the default heat-seeker target speed, 2900.0.
pub const HEATSEEKER_TARGET_SPEED_BITS: u32 = 0x4535_4000;

/// The per-tick activation state of one boost pad.
#[derive(Clone, Copy, Debug, PartialEq, Eq)]
pub struct BoostPadState {
    pub is_active: bool,
    pub cooldown: u32,
    pub cur_locked_car_id: u32,
    pub prev_locked_car_id: u32,
}

impl View for BoostPadState {
    type V = BoostPadState;

    open spec fn view(&self) -> BoostPadState {
        *self
    }
}

impl FromBytes for BoostPadState {
    open spec fn dec_ok(s: Seq<u8>) -> bool {
        s.len() == 13
    }

    open spec fn dec(s: Seq<u8>) -> BoostPadState {
        BoostPadState {
            is_active: <bool as FromBytes>::dec(s.subrange(0, 1)),
            cooldown: <u32 as FromBytes>::dec(s.subrange(1, 5)),
            cur_locked_car_id: <u32 as FromBytes>::dec(s.subrange(5, 9)),
            prev_locked_car_id: <u32 as FromBytes>::dec(s.subrange(9, 13)),
        }
    }

    fn from_bytes(bytes: &[u8]) -> (r: Result<Self, WireError>) {
        if bytes.len() != 13 {
            return Err(WireError::FormatError);
        }
        let mut reader = ByteReader::new(bytes);
        let is_active = reader.read::<bool>()?;
        let cooldown = reader.read::<u32>()?;
        let cur_locked_car_id = reader.read::<u32>()?;
        let prev_locked_car_id = reader.read::<u32>()?;
        reader.debug_assert_num_bytes(13);
        Ok(BoostPadState { is_active, cooldown, cur_locked_car_id, prev_locked_car_id })
    }
}

impl FromBytesExact for BoostPadState {
    open spec fn spec_num_bytes() -> nat {
        13
    }

    fn num_bytes() -> usize {
        13
    }

    proof fn lemma_dec_ok_len(s: Seq<u8>) {
    }
}

impl ToBytesExact for BoostPadState {
    open spec fn enc(&self) -> Seq<u8> {
        self.is_active.enc() + self.cooldown.enc() + self.cur_locked_car_id.enc()
            + self.prev_locked_car_id.enc()
    }

    fn to_bytes(&self) -> (out: Vec<u8>) {
        let mut writer = ByteWriter::new();
        writer.write(&self.is_active);
        writer.write(&self.cooldown);
        writer.write(&self.cur_locked_car_id);
        writer.write(&self.prev_locked_car_id);
        writer.inner()
    }

    proof fn lemma_enc_len(&self) {
        lemma_u32_le_facts();
    }

    proof fn lemma_round_trip(&self) {
        self.lemma_enc_len();
        lemma_u32_le_facts();
        let s = self.enc();
        assert(s.subrange(0, 1) =~= self.is_active.enc());
        assert(s.subrange(1, 5) =~= self.cooldown.enc());
        assert(s.subrange(5, 9) =~= self.cur_locked_car_id.enc());
        assert(s.subrange(9, 13) =~= self.prev_locked_car_id.enc());
    }
}

/// One boost pad: its size class, world position, and per-tick state.
/// Positions are supplied once by the host; only the state changes
/// between ticks.
#[derive(Clone, Copy, Debug, PartialEq, Eq)]
pub struct BoostPad {
    pub is_big: bool,
    pub position: Vec3,
    pub state: BoostPadState,
}

impl View for BoostPad {
    type V = BoostPad;

    open spec fn view(&self) -> BoostPad {
        *self
    }
}

impl FromBytes for BoostPad {
    open spec fn dec_ok(s: Seq<u8>) -> bool {
        s.len() == 26
    }

    open spec fn dec(s: Seq<u8>) -> BoostPad {
        BoostPad {
            is_big: <bool as FromBytes>::dec(s.subrange(0, 1)),
            position: Vec3::dec(s.subrange(1, 13)),
            state: BoostPadState::dec(s.subrange(13, 26)),
        }
    }

    fn from_bytes(bytes: &[u8]) -> (r: Result<Self, WireError>) {
        if bytes.len() != 26 {
            return Err(WireError::FormatError);
        }
        let mut reader = ByteReader::new(bytes);
        let is_big = reader.read::<bool>()?;
        let position = reader.read::<Vec3>()?;
        let state = reader.read::<BoostPadState>()?;
        reader.debug_assert_num_bytes(26);
        Ok(BoostPad { is_big, position, state })
    }
}

impl FromBytesExact for BoostPad {
    open spec fn spec_num_bytes() -> nat {
        26
    }

    fn num_bytes() -> usize {
        26
    }

    proof fn lemma_dec_ok_len(s: Seq<u8>) {
    }
}

impl ToBytesExact for BoostPad {
    open spec fn enc(&self) -> Seq<u8> {
        self.is_big.enc() + self.position.enc() + self.state.enc()
    }

    fn to_bytes(&self) -> (out: Vec<u8>) {
        let mut writer = ByteWriter::new();
        writer.write(&self.is_big);
        writer.write(&self.position);
        writer.write(&self.state);
        writer.inner()
    }

    proof fn lemma_enc_len(&self) {
        self.position.lemma_enc_len();
        self.state.lemma_enc_len();
    }

    proof fn lemma_round_trip(&self) {
        self.lemma_enc_len();
        self.position.lemma_round_trip();
        self.state.lemma_round_trip();
        let s = self.enc();
        assert(s.subrange(0, 1) =~= self.is_big.enc());
        assert(s.subrange(1, 13) =~= self.position.enc());
        assert(s.subrange(13, 26) =~= self.state.enc());
    }
}

} // verus!

verus! {

/// A variable-length type that can be encoded; the snapshot aggregate
/// implements this instead of [`ToBytesExact`] because its width depends
/// on how many pads and cars it carries.
pub trait ToBytes {
    /// When the value can be encoded at all (its collection counts must
    /// fit the 32-bit length-prefix fields).
    spec fn enc_ok(&self) -> bool;

    /// The encoding of this value.
    spec fn enc(&self) -> Seq<u8>;

    /// Encode into a fresh buffer.
    fn to_bytes(&self) -> (out: Vec<u8>)
        requires
            self.enc_ok(),
        ensures
            out@ == self.enc(),
    ;
}

/// The aggregate snapshot sent once per tick: header scalars, the ball,
/// and the variable-count pad and car records.
#[derive(Clone, Debug, PartialEq)]
pub struct GameState {
    pub tick_count: u64,
    pub tick_rate: u32,
    pub game_mode: GameMode,
    pub ball: BallState,
    pub pads: Vec<BoostPad>,
    pub cars: Vec<CarInfo>,
}

/// The mathematical content of a snapshot: the header scalars, the ball,
/// and the two record sequences.
#[verifier::ext_equal]
pub struct GameStateModel {
    pub tick_count: u64,
    pub tick_rate: u32,
    pub game_mode: GameMode,
    pub ball: BallState,
    pub pads: Seq<BoostPad>,
    pub cars: Seq<CarInfo>,
}

impl View for GameState {
    type V = GameStateModel;

    open spec fn view(&self) -> GameStateModel {
        GameStateModel {
            tick_count: self.tick_count,
            tick_rate: self.tick_rate,
            game_mode: self.game_mode,
            ball: self.ball,
            pads: self.pads@,
            cars: self.cars@,
        }
    }
}

/// The concatenated encodings of a sequence of pad records.
pub open spec fn spec_enc_pads(pads: Seq<BoostPad>) -> Seq<u8>
    decreases pads.len(),
{
    if pads.len() == 0 {
        Seq::empty()
    } else {
        pads[0].enc() + spec_enc_pads(pads.drop_first())
    }
}

/// The concatenated encodings of a sequence of car records.
pub open spec fn spec_enc_cars(cars: Seq<CarInfo>) -> Seq<u8>
    decreases cars.len(),
{
    if cars.len() == 0 {
        Seq::empty()
    } else {
        cars[0].enc() + spec_enc_cars(cars.drop_first())
    }
}

/// The fixed-size leading part of a snapshot encoding: tick counter,
/// tick rate, mode tag, the two counts, then the ball block.
pub open spec fn spec_enc_prefix(m: GameStateModel) -> Seq<u8> {
    m.tick_count.enc() + m.tick_rate.enc() + m.game_mode.enc() + (m.pads.len() as u32).enc()
        + (m.cars.len() as u32).enc() + m.ball.enc()
}

/// The full snapshot encoding: prefix, pad records, car records.
pub open spec fn spec_enc_game_state(m: GameStateModel) -> Seq<u8> {
    spec_enc_prefix(m) + spec_enc_pads(m.pads) + spec_enc_cars(m.cars)
}

/// The pad count named by a snapshot header.
pub open spec fn spec_num_pads(s: Seq<u8>) -> u32 {
    spec_u32_from_le_bytes(s.subrange(13, 17))
}

/// The car count named by a snapshot header.
pub open spec fn spec_num_cars(s: Seq<u8>) -> u32 {
    spec_u32_from_le_bytes(s.subrange(17, 21))
}

/// The total byte length a snapshot's header promises: the fixed prefix
/// and ball block plus the declared number of pad and car records.
pub open spec fn spec_required_len(s: Seq<u8>) -> int {
    113 + 26 * (spec_num_pads(s) as int) + 319 * (spec_num_cars(s) as int)
}

/// Where car record `i` starts inside a snapshot encoding.
pub open spec fn spec_car_off(s: Seq<u8>, i: int) -> int {
    113 + 26 * (spec_num_pads(s) as int) + 319 * i
}

/// The window of bytes holding pad record `i`.
pub open spec fn spec_pad_window(s: Seq<u8>, i: int) -> Seq<u8> {
    s.subrange(113 + 26 * i, 113 + 26 * i + 26)
}

/// The window of bytes holding car record `i`.
pub open spec fn spec_car_window(s: Seq<u8>, i: int) -> Seq<u8> {
    s.subrange(spec_car_off(s, i), spec_car_off(s, i) + 319)
}

proof fn lemma_enc_pads_len(pads: Seq<BoostPad>)
    ensures
        spec_enc_pads(pads).len() == 26 * pads.len(),
    decreases pads.len(),
{
    if pads.len() > 0 {
        pads[0].lemma_enc_len();
        lemma_enc_pads_len(pads.drop_first());
    }
}

proof fn lemma_enc_cars_len(cars: Seq<CarInfo>)
    ensures
        spec_enc_cars(cars).len() == 319 * cars.len(),
    decreases cars.len(),
{
    if cars.len() > 0 {
        cars[0].lemma_enc_len();
        lemma_enc_cars_len(cars.drop_first());
    }
}

#[verifier::rlimit(30)]
proof fn lemma_enc_pads_append(a: Seq<BoostPad>, b: Seq<BoostPad>)
    ensures
        spec_enc_pads(a + b) == spec_enc_pads(a) + spec_enc_pads(b),
    decreases a.len(),
{
    if a.len() == 0 {
        assert(a + b =~= b);
        assert(spec_enc_pads(a) + spec_enc_pads(b) =~= spec_enc_pads(b));
    } else {
        assert((a + b).drop_first() =~= a.drop_first() + b);
        lemma_enc_pads_append(a.drop_first(), b);
        assert((a + b)[0] == a[0]);
        assert(spec_enc_pads(a + b) =~= spec_enc_pads(a) + spec_enc_pads(b));
    }
}

#[verifier::rlimit(30)]
proof fn lemma_enc_cars_append(a: Seq<CarInfo>, b: Seq<CarInfo>)
    ensures
        spec_enc_cars(a + b) == spec_enc_cars(a) + spec_enc_cars(b),
    decreases a.len(),
{
    if a.len() == 0 {
        assert(a + b =~= b);
        assert(spec_enc_cars(a) + spec_enc_cars(b) =~= spec_enc_cars(b));
    } else {
        assert((a + b).drop_first() =~= a.drop_first() + b);
        lemma_enc_cars_append(a.drop_first(), b);
        assert((a + b)[0] == a[0]);
        assert(spec_enc_cars(a + b) =~= spec_enc_cars(a) + spec_enc_cars(b));
    }
}

proof fn lemma_enc_pads_snoc(pads: Seq<BoostPad>, i: int)
    requires
        0 <= i < pads.len(),
    ensures
        spec_enc_pads(pads.take(i + 1)) == spec_enc_pads(pads.take(i)) + pads[i].enc(),
{
    assert(pads.take(i + 1) =~= pads.take(i) + seq![pads[i]]);
    lemma_enc_pads_append(pads.take(i), seq![pads[i]]);
    let single = seq![pads[i]];
    assert(single.drop_first() =~= Seq::<BoostPad>::empty());
    assert(spec_enc_pads(Seq::<BoostPad>::empty()) == Seq::<u8>::empty());
    assert(spec_enc_pads(single) =~= pads[i].enc());
}

proof fn lemma_enc_cars_snoc(cars: Seq<CarInfo>, i: int)
    requires
        0 <= i < cars.len(),
    ensures
        spec_enc_cars(cars.take(i + 1)) == spec_enc_cars(cars.take(i)) + cars[i].enc(),
{
    assert(cars.take(i + 1) =~= cars.take(i) + seq![cars[i]]);
    lemma_enc_cars_append(cars.take(i), seq![cars[i]]);
    let single = seq![cars[i]];
    assert(single.drop_first() =~= Seq::<CarInfo>::empty());
    assert(spec_enc_cars(Seq::<CarInfo>::empty()) == Seq::<u8>::empty());
    assert(spec_enc_cars(single) =~= cars[i].enc());
}

proof fn lemma_enc_pads_index(pads: Seq<BoostPad>, i: int)
    requires
        0 <= i < pads.len(),
    ensures
        spec_enc_pads(pads).subrange(26 * i, 26 * i + 26) == pads[i].enc(),
    decreases i,
{
    lemma_enc_pads_len(pads);
    pads[0].lemma_enc_len();
    lemma_enc_pads_len(pads.drop_first());
    if i == 0 {
        assert(spec_enc_pads(pads).subrange(0, 26) =~= pads[0].enc());
    } else {
        lemma_enc_pads_index(pads.drop_first(), i - 1);
        assert(pads.drop_first()[i - 1] == pads[i]);
        assert(spec_enc_pads(pads).subrange(26 * i, 26 * i + 26) =~= spec_enc_pads(
            pads.drop_first(),
        ).subrange(26 * (i - 1), 26 * (i - 1) + 26));
    }
}

proof fn lemma_enc_cars_index(cars: Seq<CarInfo>, i: int)
    requires
        0 <= i < cars.len(),
    ensures
        spec_enc_cars(cars).subrange(319 * i, 319 * i + 319) == cars[i].enc(),
    decreases i,
{
    lemma_enc_cars_len(cars);
    cars[0].lemma_enc_len();
    lemma_enc_cars_len(cars.drop_first());
    if i == 0 {
        assert(spec_enc_cars(cars).subrange(0, 319) =~= cars[0].enc());
    } else {
        lemma_enc_cars_index(cars.drop_first(), i - 1);
        assert(cars.drop_first()[i - 1] == cars[i]);
        assert(spec_enc_cars(cars).subrange(319 * i, 319 * i + 319) =~= spec_enc_cars(
            cars.drop_first(),
        ).subrange(319 * (i - 1), 319 * (i - 1) + 319));
    }
}

/// A subrange taken inside a known segment of a sequence can be taken in
/// the segment instead.
proof fn lemma_subrange_of_segment(s: Seq<u8>, seg: Seq<u8>, off: int, a: int, b: int)
    requires
        0 <= off,
        off + seg.len() <= s.len(),
        s.subrange(off, off + seg.len() as int) == seg,
        0 <= a <= b <= seg.len(),
    ensures
        s.subrange(off + a, off + b) == seg.subrange(a, b),
{
    assert(s.subrange(off + a, off + b) =~= seg.subrange(a, b));
}

/// Facts every proof about a snapshot encoding starts from: its total
/// length, that its header counts name the real record counts, and where
/// each piece of it lies.
proof fn lemma_game_state_enc_facts(m: GameStateModel)
    requires
        m.pads.len() <= u32::MAX,
        m.cars.len() <= u32::MAX,
    ensures
        ({
            let s = spec_enc_game_state(m);
            &&& s.len() == 113 + 26 * m.pads.len() + 319 * m.cars.len()
            &&& spec_num_pads(s) == m.pads.len()
            &&& spec_num_cars(s) == m.cars.len()
            &&& spec_required_len(s) == s.len()
            &&& s.subrange(0, 8) == m.tick_count.enc()
            &&& s.subrange(8, 12) == m.tick_rate.enc()
            &&& s.subrange(12, 13) == m.game_mode.enc()
            &&& s.subrange(13, 17) == (m.pads.len() as u32).enc()
            &&& s.subrange(17, 21) == (m.cars.len() as u32).enc()
            &&& s.subrange(21, 113) == m.ball.enc()
            &&& s.subrange(113, 113 + 26 * (m.pads.len() as int)) == spec_enc_pads(m.pads)
            &&& s.subrange(
                113 + 26 * (m.pads.len() as int),
                113 + 26 * (m.pads.len() as int) + 319 * (m.cars.len() as int),
            ) == spec_enc_cars(m.cars)
        }),
{
    lemma_u32_le_facts();
    lemma_auto_spec_u64_to_from_le_bytes();
    m.ball.lemma_enc_len();
    lemma_enc_pads_len(m.pads);
    lemma_enc_cars_len(m.cars);
    let e1 = m.tick_count.enc();
    let e2 = m.tick_rate.enc();
    let e3 = m.game_mode.enc();
    let e4 = (m.pads.len() as u32).enc();
    let e5 = (m.cars.len() as u32).enc();
    let e6 = m.ball.enc();
    let p1 = e1;
    let p2 = p1 + e2;
    let p3 = p2 + e3;
    let p4 = p3 + e4;
    let p5 = p4 + e5;
    let p6 = p5 + e6;
    let pads_enc = spec_enc_pads(m.pads);
    let cars_enc = spec_enc_cars(m.cars);
    let s = spec_enc_game_state(m);
    assert(s == (p6 + pads_enc) + cars_enc);
    lemma_concat_split(p6 + pads_enc, cars_enc);
    lemma_concat_split(p6, pads_enc);
    lemma_subrange_of_prefix(s, p6 + pads_enc, 0, 113);
    lemma_subrange_of_prefix(s, p6 + pads_enc, 113, 113 + 26 * (m.pads.len() as int));
    lemma_concat_split(p5, e6);
    lemma_subrange_of_prefix(s, p6, 0, 21);
    lemma_subrange_of_prefix(s, p6, 21, 113);
    lemma_concat_split(p4, e5);
    lemma_subrange_of_prefix(s, p5, 0, 17);
    lemma_subrange_of_prefix(s, p5, 17, 21);
    lemma_concat_split(p3, e4);
    lemma_subrange_of_prefix(s, p4, 0, 13);
    lemma_subrange_of_prefix(s, p4, 13, 17);
    lemma_concat_split(p2, e3);
    lemma_subrange_of_prefix(s, p3, 0, 12);
    lemma_subrange_of_prefix(s, p3, 12, 13);
    lemma_concat_split(p1, e2);
    lemma_subrange_of_prefix(s, p2, 0, 8);
    lemma_subrange_of_prefix(s, p2, 8, 12);
}

impl FromBytes for GameState {
    open spec fn dec_ok(s: Seq<u8>) -> bool {
        &&& s.len() >= 21
        &&& GameMode::dec_ok(s.subrange(12, 13))
        &&& s.len() >= spec_required_len(s)
        &&& forall|i: int|
            0 <= i < spec_num_cars(s) ==> CarInfo::dec_ok(#[trigger] spec_car_window(s, i))
    }

    open spec fn dec(s: Seq<u8>) -> GameStateModel {
        GameStateModel {
            tick_count: <u64 as FromBytes>::dec(s.subrange(0, 8)),
            tick_rate: <u32 as FromBytes>::dec(s.subrange(8, 12)),
            game_mode: GameMode::dec(s.subrange(12, 13)),
            ball: BallState::dec(s.subrange(21, 113)),
            pads: Seq::new(
                spec_num_pads(s) as nat,
                |i: int| BoostPad::dec(spec_pad_window(s, i)),
            ),
            cars: Seq::new(
                spec_num_cars(s) as nat,
                |i: int| CarInfo::dec(spec_car_window(s, i)),
            ),
        }
    }

    fn from_bytes(bytes: &[u8]) -> (r: Result<Self, WireError>) {
        if bytes.len() < 21 {
            return Err(WireError::FormatError);
        }
        let mut reader = ByteReader::new(bytes);
        let tick_count = reader.read::<u64>()?;
        let tick_rate = reader.read::<u32>()?;
        let game_mode = reader.read::<GameMode>()?;
        let num_pads = reader.read::<u32>()?;
        let num_cars = reader.read::<u32>()?;
        let required: u64 = 113u64 + 26u64 * (num_pads as u64) + 319u64 * (num_cars as u64);
        if (bytes.len() as u64) < required {
            return Err(WireError::FormatError);
        }
        let ball = reader.read::<BallState>()?;
        let mut pads: Vec<BoostPad> = Vec::new();
        let mut k: u32 = 0;
        while k < num_pads
            invariant
                reader.bytes@ == bytes@,
                reader.idx == 113 + 26 * k,
                k <= num_pads,
                num_pads == spec_num_pads(bytes@),
                num_cars == spec_num_cars(bytes@),
                bytes@.len() >= 113 + 26 * (num_pads as int) + 319 * (num_cars as int),
                pads@ =~= Seq::new(k as nat, |i: int| BoostPad::dec(spec_pad_window(bytes@, i))),
            decreases num_pads - k,
        {
            let pad = reader.read::<BoostPad>()?;
            pads.push(pad);
            proof {
                assert(pads@ =~= Seq::new(
                    (k + 1) as nat,
                    |i: int| BoostPad::dec(spec_pad_window(bytes@, i)),
                ));
            }
            k = k + 1;
        }
        let mut cars: Vec<CarInfo> = Vec::new();
        let mut j: u32 = 0;
        while j < num_cars
            invariant
                reader.bytes@ == bytes@,
                reader.idx == 113 + 26 * (num_pads as int) + 319 * j,
                j <= num_cars,
                num_pads == spec_num_pads(bytes@),
                num_cars == spec_num_cars(bytes@),
                bytes@.len() >= 113 + 26 * (num_pads as int) + 319 * (num_cars as int),
                pads@ =~= Seq::new(
                    num_pads as nat,
                    |i: int| BoostPad::dec(spec_pad_window(bytes@, i)),
                ),
                forall|i: int| 0 <= i < j ==> CarInfo::dec_ok(#[trigger] spec_car_window(bytes@, i)),
                cars@ =~= Seq::new(j as nat, |i: int| CarInfo::dec(spec_car_window(bytes@, i))),
            decreases num_cars - j,
        {
            let car = match reader.read::<CarInfo>() {
                Ok(car) => car,
                Err(e) => {
                    proof {
                        assert(!CarInfo::dec_ok(spec_car_window(bytes@, j as int)));
                    }
                    return Err(e);
                },
            };
            cars.push(car);
            proof {
                assert(CarInfo::dec_ok(spec_car_window(bytes@, j as int)));
                assert(cars@ =~= Seq::new(
                    (j + 1) as nat,
                    |i: int| CarInfo::dec(spec_car_window(bytes@, i)),
                ));
            }
            j = j + 1;
        }
        Ok(GameState { tick_count, tick_rate, game_mode, ball, pads, cars })
    }
}

impl ToBytes for GameState {
    open spec fn enc_ok(&self) -> bool {
        self.pads@.len() <= u32::MAX && self.cars@.len() <= u32::MAX
    }

    open spec fn enc(&self) -> Seq<u8> {
        spec_enc_game_state(self@)
    }

    fn to_bytes(&self) -> (out: Vec<u8>) {
        let mut writer = ByteWriter::new();
        writer.write(&self.tick_count);
        writer.write(&self.tick_rate);
        writer.write(&self.game_mode);
        let num_pads: u32 = self.pads.len() as u32;
        let num_cars: u32 = self.cars.len() as u32;
        writer.write(&num_pads);
        writer.write(&num_cars);
        writer.write(&self.ball);
        proof {
            assert(writer.bytes@ =~= spec_enc_prefix(self@));
        }
        let mut i: usize = 0;
        while i < self.pads.len()
            invariant
                self.enc_ok(),
                i <= self.pads@.len(),
                writer.bytes@ =~= spec_enc_prefix(self@) + spec_enc_pads(self.pads@.take(i as int)),
            decreases self.pads@.len() - i,
        {
            let pad = self.pads[i];
            writer.write(&pad);
            proof {
                lemma_enc_pads_snoc(self.pads@, i as int);
                assert(writer.bytes@ =~= spec_enc_prefix(self@) + spec_enc_pads(
                    self.pads@.take(i + 1),
                ));
            }
            i = i + 1;
        }
        proof {
            assert(self.pads@.take(self.pads@.len() as int) =~= self.pads@);
        }
        let mut j: usize = 0;
        while j < self.cars.len()
            invariant
                self.enc_ok(),
                j <= self.cars@.len(),
                writer.bytes@ =~= spec_enc_prefix(self@) + spec_enc_pads(self.pads@)
                    + spec_enc_cars(self.cars@.take(j as int)),
            decreases self.cars@.len() - j,
        {
            let car = self.cars[j];
            writer.write(&car);
            proof {
                lemma_enc_cars_snoc(self.cars@, j as int);
                assert(writer.bytes@ =~= spec_enc_prefix(self@) + spec_enc_pads(self.pads@)
                    + spec_enc_cars(self.cars@.take(j + 1)));
            }
            j = j + 1;
        }
        proof {
            assert(self.cars@.take(self.cars@.len() as int) =~= self.cars@);
            assert(writer.bytes@ =~= spec_enc_game_state(self@));
        }
        writer.inner()
    }
}

impl GameState {
    /// The fixed header width that must be readable before the total
    /// length of a snapshot is known.
    pub const MIN_NUM_BYTES: usize = 21;

    /// Total encoded length promised by a snapshot header, computed
    /// without reading the body. Two-phase decoding sizes its receive
    /// buffer with this before consuming the datagram.
    pub fn get_num_bytes(bytes: &[u8]) -> (n: u64)
        requires
            bytes@.len() >= 21,
        ensures
            n == spec_required_len(bytes@),
    {
        113u64 + 26u64 * (Self::read_num_pads(bytes) as u64) + 319u64 * (Self::read_num_cars(
            bytes,
        ) as u64)
    }

    /// The tick counter, first field of the header.
    pub fn read_tick_count(bytes: &[u8]) -> (r: u64)
        requires
            bytes@.len() >= 8,
        ensures
            r == spec_u64_from_le_bytes(bytes@.subrange(0, 8)),
    {
        let piece = slice_subrange(bytes, 0, 8);
        u64_from_le_bytes(piece)
    }

    /// The tick rate bit pattern, second field of the header.
    pub fn read_tick_rate(bytes: &[u8]) -> (r: u32)
        requires
            bytes@.len() >= 12,
        ensures
            r == spec_u32_from_le_bytes(bytes@.subrange(8, 12)),
    {
        let piece = slice_subrange(bytes, 8, 12);
        u32_from_le_bytes(piece)
    }

    /// The mode tag of the header; an out-of-range byte is rejected.
    pub fn read_game_mode(bytes: &[u8]) -> (r: Result<GameMode, WireError>)
        requires
            bytes@.len() >= 13,
        ensures
            r is Ok <==> GameMode::dec_ok(bytes@.subrange(12, 13)),
            r matches Ok(v) ==> v == GameMode::dec(bytes@.subrange(12, 13)),
            r matches Err(e) ==> e == WireError::FormatError,
    {
        let piece = slice_subrange(bytes, 12, 13);
        GameMode::from_bytes(piece)
    }

    /// The pad count of the header.
    pub fn read_num_pads(bytes: &[u8]) -> (r: u32)
        requires
            bytes@.len() >= 17,
        ensures
            r == spec_num_pads(bytes@),
    {
        let piece = slice_subrange(bytes, 13, 17);
        u32_from_le_bytes(piece)
    }

    /// The car count of the header.
    pub fn read_num_cars(bytes: &[u8]) -> (r: u32)
        requires
            bytes@.len() >= 21,
        ensures
            r == spec_num_cars(bytes@),
    {
        let piece = slice_subrange(bytes, 17, 21);
        u32_from_le_bytes(piece)
    }
}

/// Round trip for the aggregate snapshot, with any number of pads and
/// cars: decoding an encoding accepts it and yields the same model.
pub proof fn lemma_game_state_round_trip(m: GameStateModel)
    requires
        m.pads.len() <= u32::MAX,
        m.cars.len() <= u32::MAX,
    ensures
        GameState::dec_ok(spec_enc_game_state(m)),
        GameState::dec(spec_enc_game_state(m)) == m,
{
    lemma_game_state_enc_facts(m);
    lemma_u32_le_facts();
    lemma_auto_spec_u64_to_from_le_bytes();
    let s = spec_enc_game_state(m);
    m.game_mode.lemma_round_trip();
    m.ball.lemma_round_trip();
    lemma_enc_pads_len(m.pads);
    lemma_enc_cars_len(m.cars);
    let pads_enc = spec_enc_pads(m.pads);
    let cars_enc = spec_enc_cars(m.cars);
    let pads_off = 113;
    let cars_off = 113 + 26 * (m.pads.len() as int);
    assert forall|i: int| 0 <= i < m.pads.len() implies BoostPad::dec(
        #[trigger] spec_pad_window(s, i),
    ) == m.pads[i] by {
        lemma_enc_pads_index(m.pads, i);
        lemma_subrange_of_segment(s, pads_enc, pads_off, 26 * i, 26 * i + 26);
        assert(spec_pad_window(s, i) == m.pads[i].enc());
        m.pads[i].lemma_round_trip();
    }
    assert forall|i: int| 0 <= i < m.cars.len() implies CarInfo::dec_ok(
        #[trigger] spec_car_window(s, i),
    ) && CarInfo::dec(spec_car_window(s, i)) == m.cars[i] by {
        lemma_enc_cars_index(m.cars, i);
        lemma_subrange_of_segment(s, cars_enc, cars_off, 319 * i, 319 * i + 319);
        assert(spec_car_window(s, i) == m.cars[i].enc());
        m.cars[i].lemma_round_trip();
    }
    assert(GameState::dec(s).pads =~= m.pads);
    assert(GameState::dec(s).cars =~= m.cars);
    assert(GameState::dec(s) =~= m);
}

/// Length consistency: the byte length a snapshot's header promises
/// equals the actual length of its encoding.
pub proof fn lemma_game_state_length_consistency(m: GameStateModel)
    requires
        m.pads.len() <= u32::MAX,
        m.cars.len() <= u32::MAX,
    ensures
        spec_required_len(spec_enc_game_state(m)) == spec_enc_game_state(m).len(),
{
    lemma_game_state_enc_facts(m);
}

/// Truncation safety: a buffer shorter than its header's promise never
/// decodes.
pub proof fn lemma_game_state_truncation_rejected(s: Seq<u8>)
    ensures
        s.len() < spec_required_len(s) ==> !GameState::dec_ok(s),
        s.len() < 21 ==> !GameState::dec_ok(s),
{
}

} // verus!

verus! {

impl Vec3 {
    /// The zero vector, the default.
    pub open spec fn spec_default() -> Vec3 {
        Vec3 { x: 0, y: 0, z: 0 }
    }
}

impl Default for Vec3 {
    fn default() -> (r: Self)
        ensures
            r == Vec3::spec_default(),
    {
        Vec3 { x: 0, y: 0, z: 0 }
    }
}

impl RotMat {
    /// The identity basis, the default: forward, right and up are the
    /// three coordinate axes (components are 1.0 bit patterns).
    pub open spec fn spec_default() -> RotMat {
        RotMat {
            forward: Vec3 { x: F32_ONE_BITS, y: 0, z: 0 },
            right: Vec3 { x: 0, y: F32_ONE_BITS, z: 0 },
            up: Vec3 { x: 0, y: 0, z: F32_ONE_BITS },
        }
    }
}

impl Default for RotMat {
    fn default() -> (r: Self)
        ensures
            r == RotMat::spec_default(),
    {
        RotMat {
            forward: Vec3 { x: F32_ONE_BITS, y: 0, z: 0 },
            right: Vec3 { x: 0, y: F32_ONE_BITS, z: 0 },
            up: Vec3 { x: 0, y: 0, z: F32_ONE_BITS },
        }
    }
}

impl BallState {
    /// The default spawn state: at rest at the fixed spawn height, with
    /// the identity orientation and the default heat-seeker target speed.
    pub open spec fn spec_default() -> BallState {
        BallState {
            pos: Vec3 { x: 0, y: 0, z: BALL_SPAWN_Z_BITS },
            rot_mat: RotMat::spec_default(),
            vel: Vec3::spec_default(),
            ang_vel: Vec3::spec_default(),
            update_counter: 0,
            heatseeker_target_dir: 0,
            heatseeker_target_speed: HEATSEEKER_TARGET_SPEED_BITS,
            heatseeker_time_since_hit: 0,
        }
    }
}

impl Default for BallState {
    fn default() -> (r: Self)
        ensures
            r == BallState::spec_default(),
    {
        BallState {
            pos: Vec3 { x: 0, y: 0, z: BALL_SPAWN_Z_BITS },
            rot_mat: Default::default(),
            vel: Default::default(),
            ang_vel: Default::default(),
            update_counter: 0,
            heatseeker_target_dir: 0,
            heatseeker_target_speed: HEATSEEKER_TARGET_SPEED_BITS,
            heatseeker_time_since_hit: 0,
        }
    }
}

impl BallHitInfo {
    /// The empty record: no hit yet.
    pub open spec fn spec_default() -> BallHitInfo {
        BallHitInfo {
            is_valid: false,
            relative_pos_on_ball: Vec3::spec_default(),
            ball_pos: Vec3::spec_default(),
            extra_hit_vel: Vec3::spec_default(),
            tick_count_when_hit: 0,
            tick_count_when_extra_impulse_applied: 0,
        }
    }
}

impl Default for BallHitInfo {
    fn default() -> (r: Self)
        ensures
            r == BallHitInfo::spec_default(),
    {
        BallHitInfo {
            is_valid: false,
            relative_pos_on_ball: Default::default(),
            ball_pos: Default::default(),
            extra_hit_vel: Default::default(),
            tick_count_when_hit: 0,
            tick_count_when_extra_impulse_applied: 0,
        }
    }
}

impl Default for Team {
    fn default() -> (r: Self)
        ensures
            r == Team::Blue,
    {
        Team::Blue
    }
}

impl Default for GameMode {
    fn default() -> (r: Self)
        ensures
            r == GameMode::TheVoid,
    {
        GameMode::TheVoid
    }
}

impl WheelPairConfig {
    /// All-zero geometry, the default.
    pub open spec fn spec_default() -> WheelPairConfig {
        WheelPairConfig {
            wheel_radius: 0,
            suspension_rest_length: 0,
            connection_point_offset: Vec3::spec_default(),
        }
    }
}

impl Default for WheelPairConfig {
    fn default() -> (r: Self)
        ensures
            r == WheelPairConfig::spec_default(),
    {
        WheelPairConfig {
            wheel_radius: 0,
            suspension_rest_length: 0,
            connection_point_offset: Default::default(),
        }
    }
}

impl CarConfig {
    /// All-zero shape, the default.
    pub open spec fn spec_default() -> CarConfig {
        CarConfig {
            hitbox_size: Vec3::spec_default(),
            hitbox_pos_offset: Vec3::spec_default(),
            front_wheels: WheelPairConfig::spec_default(),
            back_wheels: WheelPairConfig::spec_default(),
            dodge_deadzone: 0,
        }
    }
}

impl Default for CarConfig {
    fn default() -> (r: Self)
        ensures
            r == CarConfig::spec_default(),
    {
        CarConfig {
            hitbox_size: Default::default(),
            hitbox_pos_offset: Default::default(),
            front_wheels: Default::default(),
            back_wheels: Default::default(),
            dodge_deadzone: 0,
        }
    }
}

impl CarControls {
    /// No input, the default.
    pub open spec fn spec_default() -> CarControls {
        CarControls {
            throttle: 0,
            steer: 0,
            pitch: 0,
            yaw: 0,
            roll: 0,
            boost: false,
            jump: false,
            handbrake: false,
        }
    }
}

impl Default for CarControls {
    fn default() -> (r: Self)
        ensures
            r == CarControls::spec_default(),
    {
        CarControls {
            throttle: 0,
            steer: 0,
            pitch: 0,
            yaw: 0,
            roll: 0,
            boost: false,
            jump: false,
            handbrake: false,
        }
    }
}

impl WheelsWithContact {
    /// No wheel touching, the default.
    pub open spec fn spec_default() -> WheelsWithContact {
        WheelsWithContact {
            front_left: false,
            front_right: false,
            back_left: false,
            back_right: false,
        }
    }
}

impl Default for WheelsWithContact {
    fn default() -> (r: Self)
        ensures
            r == WheelsWithContact::spec_default(),
    {
        WheelsWithContact {
            front_left: false,
            front_right: false,
            back_left: false,
            back_right: false,
        }
    }
}

impl CarState {
    /// An all-zero car state, the default.
    pub open spec fn spec_default() -> CarState {
        CarState {
            pos: Vec3::spec_default(),
            rot_mat: RotMat::spec_default(),
            vel: Vec3::spec_default(),
            ang_vel: Vec3::spec_default(),
            update_counter: 0,
            is_on_ground: false,
            wheels_with_contact: WheelsWithContact::spec_default(),
            has_jumped: false,
            has_double_jumped: false,
            has_flipped: false,
            flip_rel_torque: Vec3::spec_default(),
            jump_time: 0,
            flip_time: 0,
            is_flipping: false,
            is_jumping: false,
            air_time: 0,
            air_time_since_jump: 0,
            boost: 0,
            time_spent_boosting: 0,
            is_supersonic: false,
            supersonic_time: 0,
            handbrake_val: 0,
            is_auto_flipping: false,
            auto_flip_timer: 0,
            auto_flip_torque_scale: 0,
            has_world_contact: false,
            world_contact_normal: Vec3::spec_default(),
            car_contact_id: 0,
            car_contact_cooldown_timer: 0,
            is_demoed: false,
            demo_respawn_timer: 0,
            ball_hit_info: BallHitInfo::spec_default(),
            last_controls: CarControls::spec_default(),
        }
    }
}

impl Default for CarState {
    fn default() -> (r: Self)
        ensures
            r == CarState::spec_default(),
    {
        CarState {
            pos: Default::default(),
            rot_mat: Default::default(),
            vel: Default::default(),
            ang_vel: Default::default(),
            update_counter: 0,
            is_on_ground: false,
            wheels_with_contact: Default::default(),
            has_jumped: false,
            has_double_jumped: false,
            has_flipped: false,
            flip_rel_torque: Default::default(),
            jump_time: 0,
            flip_time: 0,
            is_flipping: false,
            is_jumping: false,
            air_time: 0,
            air_time_since_jump: 0,
            boost: 0,
            time_spent_boosting: 0,
            is_supersonic: false,
            supersonic_time: 0,
            handbrake_val: 0,
            is_auto_flipping: false,
            auto_flip_timer: 0,
            auto_flip_torque_scale: 0,
            has_world_contact: false,
            world_contact_normal: Default::default(),
            car_contact_id: 0,
            car_contact_cooldown_timer: 0,
            is_demoed: false,
            demo_respawn_timer: 0,
            ball_hit_info: Default::default(),
            last_controls: Default::default(),
        }
    }
}

impl CarInfo {
    /// A default car: identifier 0, blue team, default state and shape.
    pub open spec fn spec_default() -> CarInfo {
        CarInfo {
            id: 0,
            team: Team::Blue,
            state: CarState::spec_default(),
            config: CarConfig::spec_default(),
        }
    }
}

impl Default for CarInfo {
    fn default() -> (r: Self)
        ensures
            r == CarInfo::spec_default(),
    {
        CarInfo {
            id: 0,
            team: Team::Blue,
            state: Default::default(),
            config: Default::default(),
        }
    }
}

impl BoostPadState {
    /// An idle pad: inactive flag clear, no cooldown, no locking cars.
    pub open spec fn spec_default() -> BoostPadState {
        BoostPadState { is_active: false, cooldown: 0, cur_locked_car_id: 0, prev_locked_car_id: 0 }
    }
}

impl Default for BoostPadState {
    fn default() -> (r: Self)
        ensures
            r == BoostPadState::spec_default(),
    {
        BoostPadState { is_active: false, cooldown: 0, cur_locked_car_id: 0, prev_locked_car_id: 0 }
    }
}

impl BoostPad {
    /// A small pad at the origin in the default state.
    pub open spec fn spec_default() -> BoostPad {
        BoostPad {
            is_big: false,
            position: Vec3::spec_default(),
            state: BoostPadState::spec_default(),
        }
    }
}

impl Default for BoostPad {
    fn default() -> (r: Self)
        ensures
            r == BoostPad::spec_default(),
    {
        BoostPad { is_big: false, position: Default::default(), state: Default::default() }
    }
}

impl Default for GameState {
    fn default() -> (r: Self)
        ensures
            r@ == (GameStateModel {
                tick_count: 0,
                tick_rate: 0,
                game_mode: GameMode::TheVoid,
                ball: BallState::spec_default(),
                pads: Seq::<BoostPad>::empty(),
                cars: Seq::<CarInfo>::empty(),
            }),
    {
        GameState {
            tick_count: 0,
            tick_rate: 0,
            game_mode: GameMode::TheVoid,
            ball: Default::default(),
            pads: Vec::new(),
            cars: Vec::new(),
        }
    }
}

} // verus!
