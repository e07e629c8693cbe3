use crate::glyphs::{first_index, lemma_first_index_exists, lemma_first_index_unique, Glyphs, SpriteId};
use crate::request::{encode, RenderRequest};
use crate::sink::Display;
use crate::sprites::FlashSprite;
use vstd::prelude::*;

verus! {

/// The longest write a link takes at once.
pub const MAX_WRITE: usize = 255;

/// The commands of the remote sprite controller.
pub enum FxCommand {
    ReadRegister,
    WriteRegister,
    UploadSprite,
    DeleteSprite,
}

impl FxCommand {
    pub open spec fn spec_opcode(&self) -> u8 {
        match self {
            FxCommand::ReadRegister => 0x00,
            FxCommand::WriteRegister => 0x80,
            FxCommand::UploadSprite => 0x81,
            FxCommand::DeleteSprite => 0x82,
        }
    }

    /// The byte that starts the command on the wire.
    pub fn opcode(&self) -> (r: u8)
        ensures
            r == self.spec_opcode(),
    {
        match self {
            FxCommand::ReadRegister => 0x00,
            FxCommand::WriteRegister => 0x80,
            FxCommand::UploadSprite => 0x81,
            FxCommand::DeleteSprite => 0x82,
        }
    }
}

/// A byte-oriented bus that addresses devices by a 7-bit address.
pub trait Link {
    type Error;

    /// Every write this link has been handed, in order: the address, the
    /// bytes, and whether the write succeeded. An implementation that is
    /// proved keeps this record; one that is not may leave the default.
    open spec fn written(&self) -> Seq<(u8, Seq<u8>, bool)> {
        Seq::empty()
    }

    /// Writes `bytes` to the device at `address`.
    fn write(&mut self, address: u8, bytes: &[u8]) -> (r: Result<(), Self::Error>)
        ensures
            final(self).written() == old(self).written().push((address, bytes@, r is Ok)),
    ;
}

/// A bus that can also write and then read back in one transaction.
pub trait LinkRead {
    type Error;

    /// Every transaction, in order: the address, the bytes written, the
    /// bytes read back, and whether it succeeded. An implementation that is
    /// proved keeps this record; one that is not may leave the default.
    open spec fn exchanged(&self) -> Seq<(u8, Seq<u8>, Seq<u8>, bool)> {
        Seq::empty()
    }

    /// Writes `bytes` to the device at `address`, then fills `buffer` from it.
    fn write_read(&mut self, address: u8, bytes: &[u8], buffer: &mut [u8; 4]) -> (r: Result<
        (),
        Self::Error,
    >)
        ensures
            final(self).exchanged() == old(self).exchanged().push(
                (address, bytes@, final(buffer)@, r is Ok),
            ),
    ;
}

/// `s` cut into pieces of `n` bytes, the last one possibly shorter.
pub open spec fn chunks(s: Seq<u8>, n: nat) -> Seq<Seq<u8>>
    decreases s.len(),
{
    if s.len() == 0 || n == 0 {
        seq![]
    } else if s.len() <= n {
        seq![s]
    } else {
        seq![s.take(n as int)] + chunks(s.skip(n as int), n)
    }
}

/// Cutting `s` into pieces of `n` bytes loses and reorders nothing: the
/// pieces joined give `s` back, each holds between one and `n` bytes, every
/// piece but the last holds exactly `n`, and there are `ceil(len / n)` of them.
pub proof fn lemma_chunks(s: Seq<u8>, n: nat)
    requires
        n > 0,
    ensures
        chunks(s, n).flatten() == s,
        chunks(s, n).len() == (s.len() + n - 1) / (n as int),
        forall|k: int| 0 <= k < chunks(s, n).len() ==> 0 < #[trigger] chunks(s, n)[k].len() <= n,
        forall|k: int| 0 <= k < chunks(s, n).len() - 1 ==> #[trigger] chunks(s, n)[k].len() == n,
    decreases s.len(),
{
    let c = chunks(s, n);
    if s.len() == 0 {
        assert(c.flatten() =~= s);
        assert((n - 1) / (n as int) == 0) by (nonlinear_arith)
            requires
                n > 0,
        ;
    } else if s.len() <= n {
        assert(c.first() == s);
        assert(c.drop_first() =~= Seq::<Seq<u8>>::empty());
        assert(c.drop_first().flatten() =~= Seq::<u8>::empty());
        assert(c.flatten() =~= s);
        assert((s.len() + n - 1) / (n as int) == 1) by (nonlinear_arith)
            requires
                0 < s.len() <= n,
        ;
    } else {
        let rest = s.skip(n as int);
        lemma_chunks(rest, n);
        assert(c.first() == s.take(n as int));
        assert(c.drop_first() =~= chunks(rest, n));
        assert(c.flatten() =~= s);
        let m = rest.len() as int;
        assert((s.len() + n - 1) / (n as int) == (m + n - 1) / (n as int) + 1) by {
            assert(s.len() == m + n);
            vstd::arithmetic::div_mod::lemma_div_plus_one(m + n - 1, n as int);
        }
        assert forall|k: int| 0 <= k < c.len() implies 0 < #[trigger] c[k].len() <= n by {
            if k > 0 {
                assert(c[k] == chunks(rest, n)[k - 1]);
            }
        }
        assert forall|k: int| 0 <= k < c.len() - 1 implies #[trigger] c[k].len() == n by {
            if k > 0 {
                assert(c[k] == chunks(rest, n)[k - 1]);
            }
        }
    }
}

/// The writes that upload `sprite`: the command, a descriptor
/// `[id, width, height, glyph count]`, then the bitmap in pieces a link takes.
pub open spec fn upload_frames(sprite: FlashSprite) -> Seq<Seq<u8>> {
    seq![
        seq![FxCommand::UploadSprite.spec_opcode(), sprite.sprite_id()],
        seq![sprite.sprite_id(), sprite.cell_size().width, sprite.cell_size().height, sprite.glyph_count() as u8],
    ] + chunks(sprite.bitmap(), MAX_WRITE as nat)
}

/// The writes that delete sprite `id`: the command, then `id` and a fixed
/// confirmation.
pub open spec fn delete_frames(id: SpriteId) -> Seq<Seq<u8>> {
    seq![seq![FxCommand::DeleteSprite.spec_opcode(), id], seq![id, 0x64u8, 0x65u8, 0x6cu8]]
}

/// The writes that set register `reg` to `val`.
pub open spec fn write_register_frames(reg: u8, val: Seq<u8>) -> Seq<Seq<u8>> {
    seq![seq![FxCommand::WriteRegister.spec_opcode(), reg], val]
}

/// `after` is `before` followed by the first `k` writes of `frames` to
/// `address`, each of which succeeded.
pub open spec fn wrote_ok(
    before: Seq<(u8, Seq<u8>, bool)>,
    after: Seq<(u8, Seq<u8>, bool)>,
    address: u8,
    frames: Seq<Seq<u8>>,
    k: int,
) -> bool {
    &&& 0 <= k <= frames.len()
    &&& after.len() == before.len() + k
    &&& after.take(before.len() as int) == before
    &&& forall|j: int|
        0 <= j < k ==> (#[trigger] after[before.len() + j]) == (address, frames[j], true)
}

/// `after` is `before` followed by the first `k` writes of `frames` to
/// `address`; all but the last of them succeeded, the sequence went on
/// while writes succeeded, and `ok` is whether the last one succeeded.
pub open spec fn wrote_prefix(
    before: Seq<(u8, Seq<u8>, bool)>,
    after: Seq<(u8, Seq<u8>, bool)>,
    address: u8,
    frames: Seq<Seq<u8>>,
    k: int,
    ok: bool,
) -> bool {
    &&& 1 <= k <= frames.len()
    &&& after.len() == before.len() + k
    &&& after.take(before.len() as int) == before
    &&& forall|j: int| 0 <= j < k ==> (#[trigger] after[before.len() + j]).0 == address
    &&& forall|j: int| 0 <= j < k ==> (#[trigger] after[before.len() + j]).1 == frames[j]
    &&& forall|j: int| 0 <= j < k - 1 ==> (#[trigger] after[before.len() + j]).2
    &&& after[before.len() + k - 1].2 == ok
    &&& k < frames.len() ==> !ok
}

/// The writes of `frames` were made in order and stopped at the first that
/// failed: the result is `Ok` exactly when every frame was written and every
/// write succeeded, and on an error the last write made is the one that
/// failed.
pub open spec fn wrote_until_failure(
    before: Seq<(u8, Seq<u8>, bool)>,
    after: Seq<(u8, Seq<u8>, bool)>,
    address: u8,
    frames: Seq<Seq<u8>>,
    ok: bool,
) -> bool {
    exists|k: int| #[trigger] wrote_prefix(before, after, address, frames, k, ok)
}

/// `after` is `before` with one more write of `bytes` to `address`.
pub open spec fn wrote_one(
    before: Seq<(u8, Seq<u8>, bool)>,
    after: Seq<(u8, Seq<u8>, bool)>,
    address: u8,
    bytes: Seq<u8>,
) -> bool {
    &&& after.len() == before.len() + 1
    &&& after.drop_last() == before
    &&& after.last().0 == address
    &&& after.last().1 == bytes
}

/// One more write of the next frame: a success extends the run of
/// successes; a failure, or the last frame, ends the sequence.
proof fn lemma_write_step(
    before: Seq<(u8, Seq<u8>, bool)>,
    mid: Seq<(u8, Seq<u8>, bool)>,
    after: Seq<(u8, Seq<u8>, bool)>,
    address: u8,
    frames: Seq<Seq<u8>>,
    k: int,
    ok: bool,
)
    requires
        wrote_ok(before, mid, address, frames, k),
        k < frames.len(),
        after == mid.push((address, frames[k], ok)),
    ensures
        ok ==> wrote_ok(before, after, address, frames, k + 1),
        (!ok || k + 1 == frames.len()) ==> wrote_until_failure(before, after, address, frames, ok),
{
    assert(after.take(before.len() as int) =~= mid.take(before.len() as int));
    assert forall|j: int| 0 <= j < k implies #[trigger] after[before.len() + j] == mid[before.len()
        + j] by {}
    if !ok || k + 1 == frames.len() {
        assert(wrote_prefix(before, after, address, frames, k + 1, ok));
    }
}

/// The sprite ids of a glyph map, in order.
pub open spec fn map_ids(map: Seq<(SpriteId, Glyphs)>) -> Seq<SpriteId> {
    map.map_values(|e: (SpriteId, Glyphs)| e.0)
}

/// What the controller is sent for `req`: the glyph renumbered to its slot
/// in the first glyph set kept for the request's sprite; the request as it
/// is when no set is kept for that sprite; nothing when the glyph has no
/// slot in the set, which is a skipped draw.
pub open spec fn remote_request(map: Seq<(SpriteId, Glyphs)>, req: RenderRequest) -> Option<
    RenderRequest,
> {
    match first_index(map_ids(map), req.sprite_id) {
        Some(k) => match map[k].1.slot(req.glyph) {
            Some(i) => Some(
                RenderRequest { origin: req.origin, sprite_id: req.sprite_id, glyph: i as u8 },
            ),
            None => None,
        },
        None => Some(req),
    }
}

/// A glyph that has no slot in the glyph set kept for its sprite is not
/// sent.
pub proof fn lemma_missing_glyph_not_sent(map: Seq<(SpriteId, Glyphs)>, req: RenderRequest, k: int)
    requires
        first_index(map_ids(map), req.sprite_id) == Some(k),
        !map[k].1.contains(req.glyph),
    ensures
        remote_request(map, req) is None,
{
    crate::glyphs::lemma_slot_in_range(map[k].1, req.glyph);
}

/// A remote display controller that holds its own sprite table and draws
/// the glyphs it is asked for.
pub struct FxDisplay<L, const ADDR: usize, const N: usize> {
    link: L,
    glyph_map: [(SpriteId, Glyphs); N],
    requests: Ghost<Seq<RenderRequest>>,
}

impl<L, const ADDR: usize, const N: usize> FxDisplay<L, ADDR, N> {
    /// The address of the control channel.
    pub open spec fn control() -> u8 {
        ADDR as u8
    }

    /// The address of the render channel: the control address with its low bit set.
    pub open spec fn render_channel() -> u8 {
        (ADDR as u8) | 1u8
    }

    pub closed spec fn spec_link(&self) -> L {
        self.link
    }

    pub closed spec fn glyph_map(&self) -> Seq<(SpriteId, Glyphs)> {
        self.glyph_map@
    }

    pub fn new(link: L, glyph_map: [(SpriteId, Glyphs); N]) -> (r: Self)
        ensures
            r.spec_link() == link,
            r.glyph_map() == glyph_map@,
    {
        FxDisplay { link, glyph_map, requests: Ghost(Seq::empty()) }
    }

    pub fn link(&mut self) -> (r: &mut L)
        ensures
            *r == old(self).spec_link(),
            final(self).spec_link() == *final(r),
            final(self).glyph_map() == old(self).glyph_map(),
    {
        &mut self.link
    }

    pub fn release(self) -> (r: L)
        ensures
            r == self.spec_link(),
    {
        self.link
    }
}

impl<L: Link, const ADDR: usize, const N: usize> FxDisplay<L, ADDR, N> {
    /// Sets register `reg` to the bytes of `val`.
    pub fn write_register(&mut self, reg: u8, val: &[u8]) -> (r: Result<(), L::Error>)
        ensures
            final(self).glyph_map() == old(self).glyph_map(),
            wrote_until_failure(
                old(self).spec_link().written(),
                final(self).spec_link().written(),
                Self::control(),
                write_register_frames(reg, val@),
                r is Ok,
            ),
    {
        let ghost before = self.link.written();
        let ghost frames = write_register_frames(reg, val@);
        let ghost addr = Self::control();
        let head = [FxCommand::WriteRegister.opcode(), reg];
        let ghost mid = self.link.written();
        let r = self.write(&head);
        proof {
            assert(head@ == frames[0]);
            assert(before.take(before.len() as int) =~= before);
            lemma_write_step(before, mid, self.link.written(), addr, frames, 0, r is Ok);
        }
        if r.is_err() {
            return r;
        }
        let ghost mid = self.link.written();
        let r = self.write(val);
        proof {
            lemma_write_step(before, mid, self.link.written(), addr, frames, 1, r is Ok);
        }
        r
    }

    /// Provisions `sprite` on the controller: the command, a descriptor, then
    /// the bitmap in pieces of at most `MAX_WRITE` bytes.
    pub fn upload_sprite(&mut self, sprite: &FlashSprite) -> (r: Result<(), L::Error>)
        ensures
            final(self).glyph_map() == old(self).glyph_map(),
            wrote_until_failure(
                old(self).spec_link().written(),
                final(self).spec_link().written(),
                Self::control(),
                upload_frames(*sprite),
                r is Ok,
            ),
    {
        let ghost before = self.link.written();
        let ghost frames = upload_frames(*sprite);
        let ghost addr = Self::control();
        let id = sprite.id();
        let size = sprite.size();
        let head = [FxCommand::UploadSprite.opcode(), id];
        let ghost mid = self.link.written();
        let r = self.write(&head);
        proof {
            assert(head@ == frames[0]);
            assert(before.take(before.len() as int) =~= before);
            lemma_write_step(before, mid, self.link.written(), addr, frames, 0, r is Ok);
        }
        if r.is_err() {
            return r;
        }
        let descriptor = [id, size.width, size.height, #[verifier::truncate] (sprite.glyphs() as u8)];
        let ghost mid = self.link.written();
        let r = self.write(&descriptor);
        proof {
            assert(descriptor@ == frames[1]);
            lemma_write_step(before, mid, self.link.written(), addr, frames, 1, r is Ok);
        }
        if r.is_err() {
            return r;
        }
        let bitmap = sprite.raw();
        let len = bitmap.len();
        assert(bitmap@.skip(0) =~= bitmap@);
        assert(frames.skip(2) =~= chunks(bitmap@, MAX_WRITE as nat));
        let mut offset: usize = 0;
        let ghost mut done: int = 2;
        while offset < len
            invariant
                offset <= len == bitmap@.len(),
                bitmap@ == sprite.bitmap(),
                frames == upload_frames(*sprite),
                addr == Self::control(),
                before == old(self).link.written(),
                2 <= done <= frames.len(),
                frames.skip(done) == chunks(bitmap@.skip(offset as int), MAX_WRITE as nat),
                wrote_ok(before, self.link.written(), addr, frames, done),
                self.glyph_map@ == old(self).glyph_map@,
            decreases len - offset,
        {
            let rest = len - offset;
            let n = if rest < MAX_WRITE {
                rest
            } else {
                MAX_WRITE
            };
            let piece = vstd::slice::slice_subrange(bitmap, offset, offset + n);
            proof {
                let tail = bitmap@.skip(offset as int);
                assert(tail.len() > 0);
                assert(chunks(tail, MAX_WRITE as nat).len() > 0);
                assert(frames.skip(done)[0] == frames[done]);
                assert(done < frames.len());
                if tail.len() <= MAX_WRITE {
                    assert(piece@ =~= tail);
                } else {
                    assert(piece@ =~= tail.take(MAX_WRITE as int));
                    assert(tail.skip(MAX_WRITE as int) =~= bitmap@.skip(offset + MAX_WRITE));
                }
                assert(frames.skip(done + 1) =~= frames.skip(done).skip(1));
            }
            let ghost mid = self.link.written();
            let r = self.write(piece);
            proof {
                lemma_write_step(before, mid, self.link.written(), addr, frames, done, r is Ok);
                done = done + 1;
            }
            if r.is_err() {
                return r;
            }
            offset = offset + n;
        }
        proof {
            assert(bitmap@.skip(offset as int).len() == 0);
            assert(frames.skip(done).len() == 0);
            assert(done == frames.len());
            let w = self.link.written();
            assert(w[before.len() + (done - 1)] == (addr, frames[done - 1], true));
            assert(wrote_prefix(before, self.link.written(), addr, frames, done, true));
        }
        Ok(())
    }

    /// Removes sprite `sprite_id` from the controller.
    pub fn delete_sprite(&mut self, sprite_id: SpriteId) -> (r: Result<(), L::Error>)
        ensures
            final(self).glyph_map() == old(self).glyph_map(),
            wrote_until_failure(
                old(self).spec_link().written(),
                final(self).spec_link().written(),
                Self::control(),
                delete_frames(sprite_id),
                r is Ok,
            ),
    {
        let ghost before = self.link.written();
        let ghost frames = delete_frames(sprite_id);
        let ghost addr = Self::control();
        let head = [FxCommand::DeleteSprite.opcode(), sprite_id];
        let ghost mid = self.link.written();
        let r = self.write(&head);
        proof {
            assert(head@ == frames[0]);
            assert(before.take(before.len() as int) =~= before);
            lemma_write_step(before, mid, self.link.written(), addr, frames, 0, r is Ok);
        }
        if r.is_err() {
            return r;
        }
        let confirm = [sprite_id, 0x64u8, 0x65u8, 0x6cu8];
        let ghost mid = self.link.written();
        let r = self.write(&confirm);
        proof {
            assert(confirm@ == frames[1]);
            lemma_write_step(before, mid, self.link.written(), addr, frames, 1, r is Ok);
        }
        r
    }

    fn write(&mut self, buf: &[u8]) -> (r: Result<(), L::Error>)
        ensures
            final(self).glyph_map() == old(self).glyph_map(),
            final(self).spec_link().written() == old(self).spec_link().written().push(
                (Self::control(), buf@, r is Ok),
            ),
    {
        self.link.write(#[verifier::truncate] (ADDR as u8), buf)
    }
}

impl<L: LinkRead, const ADDR: usize, const N: usize> FxDisplay<L, ADDR, N> {
    /// Reads the four bytes of register `reg`: the command goes out on the
    /// control channel and the bytes read back are returned.
    pub fn read_register(&mut self, reg: u8) -> (r: Result<[u8; 4], L::Error>)
        ensures
            final(self).glyph_map() == old(self).glyph_map(),
            final(self).spec_link().exchanged().len() == old(self).spec_link().exchanged().len()
                + 1,
            final(self).spec_link().exchanged().drop_last() == old(self).spec_link().exchanged(),
            final(self).spec_link().exchanged().last().0 == Self::control(),
            final(self).spec_link().exchanged().last().1 == seq![
                FxCommand::ReadRegister.spec_opcode(),
                reg,
            ],
            (r is Ok) == final(self).spec_link().exchanged().last().3,
            r matches Ok(b) ==> b@ == final(self).spec_link().exchanged().last().2,
    {
        let mut scratch = [0u8; 4];
        let out = [FxCommand::ReadRegister.opcode(), reg];
        let r = self.link.write_read(#[verifier::truncate] (ADDR as u8), &out, &mut scratch);
        assert(out@ =~= seq![FxCommand::ReadRegister.spec_opcode(), reg]);
        match r {
            Ok(()) => Ok(scratch),
            Err(e) => Err(e),
        }
    }
}

impl<L: Link, const ADDR: usize, const N: usize> Display for FxDisplay<L, ADDR, N> {
    closed spec fn received(&self) -> Seq<RenderRequest> {
        self.requests@
    }

    /// Sends what `remote_request` gives to the render channel, or nothing
    /// for a skipped draw; a failed write is dropped.
    fn render(&mut self, req: RenderRequest)
        ensures
            final(self).glyph_map() == old(self).glyph_map(),
            match remote_request(old(self).glyph_map(), req) {
                Some(out) => wrote_one(
                    old(self).spec_link().written(),
                    final(self).spec_link().written(),
                    Self::render_channel(),
                    encode(out),
                ),
                None => final(self).spec_link().written() == old(self).spec_link().written(),
            },
    {
        proof {
            self.requests@ = self.requests@.push(req);
        }
        let ghost ids = map_ids(self.glyph_map@);
        let mut k: usize = 0;
        while k < N
            invariant
                k <= N,
                self.glyph_map == old(self).glyph_map,
                self.link == old(self).link,
                self.requests@ == old(self).requests@.push(req),
                self.glyph_map@.len() == N,
                ids == map_ids(self.glyph_map@),
                forall|j: int| 0 <= j < k ==> ids[j] != req.sprite_id,
            decreases N - k,
        {
            let (sprite_id, glyphs) = &self.glyph_map[k];
            assert(ids[k as int] == *sprite_id);
            if *sprite_id == req.sprite_id {
                proof {
                    lemma_first_index_exists(ids, req.sprite_id);
                    lemma_first_index_unique(ids, req.sprite_id, k as int, first_index(ids, req.sprite_id)->0);
                }
                if let Some(idx) = glyphs.index(req.glyph) {
                    let out = RenderRequest::new(req.origin, req.sprite_id, #[verifier::truncate] (idx as u8));
                    assert(remote_request(self.glyph_map@, req) == Some(out));
                    self.send_request(out);
                }
                return;
            }
            k = k + 1;
        }
        proof {
            assert(!ids.contains(req.sprite_id));
        }
        self.send_request(req);
    }
}

impl<L: Link, const ADDR: usize, const N: usize> FxDisplay<L, ADDR, N> {
    fn send_request(&mut self, req: RenderRequest)
        ensures
            final(self).glyph_map() == old(self).glyph_map(),
            final(self).received() == old(self).received(),
            wrote_one(
                old(self).spec_link().written(),
                final(self).spec_link().written(),
                Self::render_channel(),
                encode(req),
            ),
    {
        let bytes = req.as_bytes();
        let _ = self.link.write((#[verifier::truncate] (ADDR as u8)) | 1, &bytes);
        assert(self.link.written().drop_last() =~= old(self).link.written());
    }
}

} // verus!
