//! Integrity of the voice projection packet handed to the offline learned
//! expression selector: the projection's exact canonical JSON bytes are
//! sealed under a domain-separated FNV-1a digest, and the digest is checked
//! again before scoring, so a stale or corrupted packet is caught.
//!
//! The JSON of each field comes from `serde_json`; this module frames the
//! fields into the object's bytes.
use vstd::prelude::*;
use crate::digest::{fnv_extend, fnv_extend_exec, FNV_OFFSET};
use crate::json::{append_bytes, append_field, json_of_str, json_of_u64, to_json_str, to_json_u64, utf8};

verus! {

/// The domain label mixed in ahead of the projection's bytes.
pub const PROJECTION_PACKET_DOMAIN: &'static str = "starfire-omega-v1f1-projection-packet-v1";

/// The largest basis-point value: 100%.
pub const MAX_BPS: u16 = 10_000;

/// Why a projection or its packet was refused.
#[derive(Debug, Clone, PartialEq, Eq)]
pub enum LearnedExpressionError {
    /// A voice dimension is above 10 000 basis points.
    BasisPointsOutOfRange,
    /// The packet digest came out zero.
    EmptyDigest,
    /// The projection could not be serialised; the serialiser's message.
    CanonicalSerialization(String),
}

/// The bounded view of the voice state that the selector scores against:
/// a version, seven dimensions in basis points and the digest of the state it
/// was projected from.
#[derive(Debug, Clone, PartialEq, Eq)]
pub struct LearnedVoiceProjection {
    pub version: u64,
    pub directness_bps: u16,
    pub warmth_bps: u16,
    pub compression_bps: u16,
    pub initiative_bps: u16,
    pub disagreement_bps: u16,
    pub uncertainty_bps: u16,
    pub intensity_bps: u16,
    pub source_digest: String,
}

/// Whether every dimension of a projection is within 10 000 basis points.
pub open spec fn projection_in_range(p: LearnedVoiceProjection) -> bool {
    &&& p.directness_bps <= MAX_BPS
    &&& p.warmth_bps <= MAX_BPS
    &&& p.compression_bps <= MAX_BPS
    &&& p.initiative_bps <= MAX_BPS
    &&& p.disagreement_bps <= MAX_BPS
    &&& p.uncertainty_bps <= MAX_BPS
    &&& p.intensity_bps <= MAX_BPS
}

impl LearnedVoiceProjection {
    /// The projection with the given dimensions, refused when a dimension is
    /// above 10 000 basis points.
    pub fn new(
        version: u64,
        directness_bps: u16,
        warmth_bps: u16,
        compression_bps: u16,
        initiative_bps: u16,
        disagreement_bps: u16,
        uncertainty_bps: u16,
        intensity_bps: u16,
        source_digest: &str,
    ) -> (r: Result<LearnedVoiceProjection, LearnedExpressionError>)
        ensures
            match r {
                Ok(p) => {
                    &&& p.version == version
                    &&& p.directness_bps == directness_bps
                    &&& p.warmth_bps == warmth_bps
                    &&& p.compression_bps == compression_bps
                    &&& p.initiative_bps == initiative_bps
                    &&& p.disagreement_bps == disagreement_bps
                    &&& p.uncertainty_bps == uncertainty_bps
                    &&& p.intensity_bps == intensity_bps
                    &&& p.source_digest@ == source_digest@
                    &&& projection_in_range(p)
                },
                Err(e) => e == LearnedExpressionError::BasisPointsOutOfRange,
            },
            r is Err <==> !(directness_bps <= MAX_BPS && warmth_bps <= MAX_BPS && compression_bps
                <= MAX_BPS && initiative_bps <= MAX_BPS && disagreement_bps <= MAX_BPS
                && uncertainty_bps <= MAX_BPS && intensity_bps <= MAX_BPS),
    {
        if directness_bps > MAX_BPS || warmth_bps > MAX_BPS || compression_bps > MAX_BPS
            || initiative_bps > MAX_BPS || disagreement_bps > MAX_BPS || uncertainty_bps > MAX_BPS
            || intensity_bps > MAX_BPS {
            return Err(LearnedExpressionError::BasisPointsOutOfRange);
        }
        Ok(
            LearnedVoiceProjection {
                version,
                directness_bps,
                warmth_bps,
                compression_bps,
                initiative_bps,
                disagreement_bps,
                uncertainty_bps,
                intensity_bps,
                source_digest: crate::text::string_of(source_digest),
            },
        )
    }
}

/// The canonical JSON of a projection with the given fields: an object of
/// the fields in declaration order, with no whitespace, each value as
/// `serde_json` writes it. A basis-point value is written as the same
/// unsigned integer widened.
pub open spec fn fields_json(
    version: u64,
    directness_bps: u16,
    warmth_bps: u16,
    compression_bps: u16,
    initiative_bps: u16,
    disagreement_bps: u16,
    uncertainty_bps: u16,
    intensity_bps: u16,
    source_digest: Seq<char>,
) -> Seq<u8> {
    utf8("{\"version\":"@) + json_of_u64(version) + utf8(",\"directness_bps\":"@) + json_of_u64(
        directness_bps as u64,
    ) + utf8(",\"warmth_bps\":"@) + json_of_u64(warmth_bps as u64) + utf8(
        ",\"compression_bps\":"@,
    ) + json_of_u64(compression_bps as u64) + utf8(",\"initiative_bps\":"@) + json_of_u64(
        initiative_bps as u64,
    ) + utf8(",\"disagreement_bps\":"@) + json_of_u64(disagreement_bps as u64) + utf8(
        ",\"uncertainty_bps\":"@,
    ) + json_of_u64(uncertainty_bps as u64) + utf8(",\"intensity_bps\":"@) + json_of_u64(
        intensity_bps as u64,
    ) + utf8(",\"source_digest\":"@) + json_of_str(source_digest) + utf8("}"@)
}

/// The projection's canonical JSON.
pub open spec fn projection_json(p: LearnedVoiceProjection) -> Seq<u8> {
    fields_json(
        p.version,
        p.directness_bps,
        p.warmth_bps,
        p.compression_bps,
        p.initiative_bps,
        p.disagreement_bps,
        p.uncertainty_bps,
        p.intensity_bps,
        p.source_digest@,
    )
}

/// The packet digest of the projection's canonical bytes: FNV-1a over the
/// domain label followed by the bytes.
pub open spec fn packet_digest_of(json: Seq<u8>) -> u64 {
    fnv_extend(fnv_extend(FNV_OFFSET, utf8(PROJECTION_PACKET_DOMAIN@)), json)
}

/// The packet digest of a projection.
pub open spec fn projection_digest(p: LearnedVoiceProjection) -> u64 {
    packet_digest_of(projection_json(p))
}

/// The packet digest of a projection's canonical bytes.
pub fn digest_packet_bytes(json: &[u8]) -> (d: u64)
    ensures
        d == packet_digest_of(json@),
{
    let domain = fnv_extend_exec(FNV_OFFSET, PROJECTION_PACKET_DOMAIN.as_bytes());
    fnv_extend_exec(domain, json)
}

/// The projection's canonical JSON bytes; serialising its plain fields
/// always succeeds.
pub fn projection_bytes(p: &LearnedVoiceProjection) -> (r: Result<Vec<u8>, String>)
    ensures
        r matches Ok(b) && b@ == projection_json(*p),
{
    let mut buf: Vec<u8> = Vec::new();
    let ghost start = buf@;
    append_field(&mut buf, "{\"version\":", to_json_u64(p.version))?;
    append_field(&mut buf, ",\"directness_bps\":", to_json_u64(p.directness_bps as u64))?;
    append_field(&mut buf, ",\"warmth_bps\":", to_json_u64(p.warmth_bps as u64))?;
    append_field(&mut buf, ",\"compression_bps\":", to_json_u64(p.compression_bps as u64))?;
    append_field(&mut buf, ",\"initiative_bps\":", to_json_u64(p.initiative_bps as u64))?;
    append_field(&mut buf, ",\"disagreement_bps\":", to_json_u64(p.disagreement_bps as u64))?;
    append_field(&mut buf, ",\"uncertainty_bps\":", to_json_u64(p.uncertainty_bps as u64))?;
    append_field(&mut buf, ",\"intensity_bps\":", to_json_u64(p.intensity_bps as u64))?;
    append_field(&mut buf, ",\"source_digest\":", to_json_str(p.source_digest.as_str()))?;
    append_bytes(&mut buf, "}".as_bytes());
    assert(start =~= Seq::<u8>::empty());
    assert(buf@ =~= projection_json(*p));
    Ok(buf)
}

/// Why a packet failed its integrity check.
#[derive(Debug, Clone, PartialEq, Eq)]
pub enum ProjectionPacketError {
    /// The packet's digest is zero.
    EmptyDigest,
    /// The packet's digest does not match the projection's bytes.
    DigestMismatch,
    /// The projection could not be serialised; the serialiser's message.
    Serialization(String),
}

/// The integrity verdict for a packet digest against the digest its
/// projection's bytes give now: a zero digest is empty, a different one is a
/// mismatch.
pub open spec fn integrity_verdict_spec(packet_digest: u64, expected: u64) -> Result<
    (),
    ProjectionPacketError,
> {
    if packet_digest == 0 {
        Err(ProjectionPacketError::EmptyDigest)
    } else if expected != packet_digest {
        Err(ProjectionPacketError::DigestMismatch)
    } else {
        Ok(())
    }
}

/// The integrity verdict for a packet digest against the digest its
/// projection's bytes give now.
pub fn integrity_verdict(packet_digest: u64, expected: u64) -> (r: Result<(), ProjectionPacketError>)
    ensures
        r == integrity_verdict_spec(packet_digest, expected),
{
    if packet_digest == 0 {
        Err(ProjectionPacketError::EmptyDigest)
    } else if expected != packet_digest {
        Err(ProjectionPacketError::DigestMismatch)
    } else {
        Ok(())
    }
}

/// A projection sealed with the digest of its canonical bytes.
#[derive(Debug, Clone, PartialEq, Eq)]
pub struct VerifiedVoiceProjection {
    pub projection: LearnedVoiceProjection,
    pub packet_digest: u64,
}

/// The packet digest of a projection with the given fields.
pub open spec fn fields_digest(
    version: u64,
    directness_bps: u16,
    warmth_bps: u16,
    compression_bps: u16,
    initiative_bps: u16,
    disagreement_bps: u16,
    uncertainty_bps: u16,
    intensity_bps: u16,
    source_digest: Seq<char>,
) -> u64 {
    packet_digest_of(
        fields_json(
            version,
            directness_bps,
            warmth_bps,
            compression_bps,
            initiative_bps,
            disagreement_bps,
            uncertainty_bps,
            intensity_bps,
            source_digest,
        ),
    )
}

impl VerifiedVoiceProjection {
    /// Validates the dimensions and seals the projection: a dimension above
    /// 10 000 basis points is refused, then a zero packet digest; otherwise
    /// the sealed projection holds the given fields.
    pub fn new(
        version: u64,
        directness_bps: u16,
        warmth_bps: u16,
        compression_bps: u16,
        initiative_bps: u16,
        disagreement_bps: u16,
        uncertainty_bps: u16,
        intensity_bps: u16,
        source_digest: &str,
    ) -> (r: Result<VerifiedVoiceProjection, LearnedExpressionError>)
        ensures
            !(directness_bps <= MAX_BPS && warmth_bps <= MAX_BPS && compression_bps <= MAX_BPS
                && initiative_bps <= MAX_BPS && disagreement_bps <= MAX_BPS && uncertainty_bps
                <= MAX_BPS && intensity_bps <= MAX_BPS) ==> r == Err::<
                VerifiedVoiceProjection,
                LearnedExpressionError,
            >(LearnedExpressionError::BasisPointsOutOfRange),
            directness_bps <= MAX_BPS && warmth_bps <= MAX_BPS && compression_bps <= MAX_BPS
                && initiative_bps <= MAX_BPS && disagreement_bps <= MAX_BPS && uncertainty_bps
                <= MAX_BPS && intensity_bps <= MAX_BPS ==> if fields_digest(
                version,
                directness_bps,
                warmth_bps,
                compression_bps,
                initiative_bps,
                disagreement_bps,
                uncertainty_bps,
                intensity_bps,
                source_digest@,
            ) == 0 {
                r == Err::<VerifiedVoiceProjection, LearnedExpressionError>(
                    LearnedExpressionError::EmptyDigest,
                )
            } else {
                r is Ok
            },
            r matches Ok(v) ==> {
                &&& v.projection.version == version
                &&& v.projection.directness_bps == directness_bps
                &&& v.projection.warmth_bps == warmth_bps
                &&& v.projection.compression_bps == compression_bps
                &&& v.projection.initiative_bps == initiative_bps
                &&& v.projection.disagreement_bps == disagreement_bps
                &&& v.projection.uncertainty_bps == uncertainty_bps
                &&& v.projection.intensity_bps == intensity_bps
                &&& v.projection.source_digest@ == source_digest@
                &&& v.packet_digest == projection_digest(v.projection)
                &&& v.packet_digest != 0
            },
    {
        let p = LearnedVoiceProjection::new(
            version,
            directness_bps,
            warmth_bps,
            compression_bps,
            initiative_bps,
            disagreement_bps,
            uncertainty_bps,
            intensity_bps,
            source_digest,
        )?;
        VerifiedVoiceProjection::seal(p)
    }

    /// Seals a projection with the digest of its canonical bytes; a zero
    /// digest is refused.
    pub fn seal(projection: LearnedVoiceProjection) -> (r: Result<
        VerifiedVoiceProjection,
        LearnedExpressionError,
    >)
        ensures
            projection_digest(projection) != 0 ==> (r matches Ok(v) && v.projection == projection
                && v.packet_digest == projection_digest(projection)),
            projection_digest(projection) == 0 ==> r == Err::<
                VerifiedVoiceProjection,
                LearnedExpressionError,
            >(LearnedExpressionError::EmptyDigest),
    {
        let bytes = match projection_bytes(&projection) {
            Ok(b) => b,
            Err(msg) => {
                return Err(LearnedExpressionError::CanonicalSerialization(msg));
            },
        };
        let packet_digest = digest_packet_bytes(bytes.as_slice());
        if packet_digest == 0 {
            return Err(LearnedExpressionError::EmptyDigest);
        }
        Ok(VerifiedVoiceProjection { projection, packet_digest })
    }

    /// Checks the packet: its digest must be nonzero and equal the digest of
    /// the projection's bytes now. A packet sealed from its projection
    /// passes; one whose projection changed since is caught, unless the two
    /// projections' digests collide.
    pub fn verify_integrity(&self) -> (r: Result<(), ProjectionPacketError>)
        ensures
            r == integrity_verdict_spec(self.packet_digest, projection_digest(self.projection)),
    {
        if self.packet_digest == 0 {
            return Err(ProjectionPacketError::EmptyDigest);
        }
        let bytes = match projection_bytes(&self.projection) {
            Ok(b) => b,
            Err(msg) => {
                return Err(ProjectionPacketError::Serialization(msg));
            },
        };
        let expected = digest_packet_bytes(bytes.as_slice());
        integrity_verdict(self.packet_digest, expected)
    }
}

} // verus!
