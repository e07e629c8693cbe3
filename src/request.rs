use crate::geometry::Point;
use crate::glyphs::{Glyph, SpriteId};
use vstd::prelude::*;

verus! {

/// Asks a display to draw one glyph of one sprite at a position.
#[derive(Debug, Clone, Copy, PartialEq, Eq, Structural)]
pub struct RenderRequest {
    pub origin: Point,
    pub sprite_id: SpriteId,
    pub glyph: Glyph,
}

/// The four wire bytes of a request: `[x, y, sprite_id, glyph]`.
pub open spec fn encode(req: RenderRequest) -> Seq<u8> {
    seq![req.origin.x, req.origin.y, req.sprite_id, req.glyph]
}

/// The request that four wire bytes stand for.
pub open spec fn decode(bytes: Seq<u8>) -> RenderRequest
    recommends
        bytes.len() == 4,
{
    RenderRequest { origin: Point { x: bytes[0], y: bytes[1] }, sprite_id: bytes[2], glyph: bytes[3] }
}

impl RenderRequest {
    pub fn new(origin: Point, sprite_id: SpriteId, glyph: Glyph) -> (r: RenderRequest)
        ensures
            r.origin == origin && r.sprite_id == sprite_id && r.glyph == glyph,
    {
        RenderRequest { origin, sprite_id, glyph }
    }

    pub fn from_bytes(bytes: &[u8]) -> (r: RenderRequest)
        requires
            bytes@.len() == 4,
        ensures
            r == decode(bytes@),
    {
        RenderRequest::new(Point::new(bytes[0], bytes[1]), bytes[2], bytes[3])
    }

    pub fn as_bytes(&self) -> (r: [u8; 4])
        ensures
            r@ == encode(*self),
    {
        let r = [self.origin.x, self.origin.y, self.sprite_id, self.glyph];
        assert(r@ =~= encode(*self));
        r
    }
}

/// Decoding the encoding of a request gives the request back.
pub proof fn lemma_decode_encode(req: RenderRequest)
    ensures
        decode(encode(req)) == req,
{
}

/// Encoding the request that four bytes decode to gives the same bytes back.
pub proof fn lemma_encode_decode(bytes: Seq<u8>)
    requires
        bytes.len() == 4,
    ensures
        encode(decode(bytes)) == bytes,
{
    assert(encode(decode(bytes)) =~= bytes);
}

} // verus!
