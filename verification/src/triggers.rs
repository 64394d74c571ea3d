//! Locator records and their embedded trigger sub-records.
use crate::bytes::{
    le32_at, read_bytes, read_u32, read_u8, decode_text, string_model, DecodeError,
};
use crate::chunks::{
    read_matrix4, read_vec3, spec_matrix4_at, spec_vec3_at, Matrix4f, Vec3f, TRIGGER,
};
use vstd::prelude::*;

verus! {

/// A locator's auxiliary data block, interpreted according to the locator's
/// element type: a dynamic zone (type 5) carries a NUL-padded name; every
/// other type is skipped opaquely.
#[derive(Debug, Default, PartialEq, Eq)]
pub enum Ttype {
    #[default]
    Skip,
    Event(Vec<Vec3f>),
    Script(),
    Generic(),
    CarStart(Vec<Vec3f>),
    Spline(),
    DynamicZone(String),
    Occlusion(),
    InteriorEntrance(),
    Directional(),
    Action(),
    Fov(),
    BreakableCamera(),
    StaticCamera(),
    PedGroup(),
    Coin(),
    SpawnPoint(),
}

/// The mathematical image of a `Ttype`.
pub ghost enum TtypeModel {
    Skip,
    Event(Seq<Vec3f>),
    Script,
    Generic,
    CarStart(Seq<Vec3f>),
    Spline,
    DynamicZone(Seq<char>),
    Occlusion,
    InteriorEntrance,
    Directional,
    Action,
    Fov,
    BreakableCamera,
    StaticCamera,
    PedGroup,
    Coin,
    SpawnPoint,
}

impl Ttype {
    pub open spec fn model(self) -> TtypeModel {
        match self {
            Ttype::Skip => TtypeModel::Skip,
            Ttype::Event(v) => TtypeModel::Event(v@),
            Ttype::Script() => TtypeModel::Script,
            Ttype::Generic() => TtypeModel::Generic,
            Ttype::CarStart(v) => TtypeModel::CarStart(v@),
            Ttype::Spline() => TtypeModel::Spline,
            Ttype::DynamicZone(s) => TtypeModel::DynamicZone(s@),
            Ttype::Occlusion() => TtypeModel::Occlusion,
            Ttype::InteriorEntrance() => TtypeModel::InteriorEntrance,
            Ttype::Directional() => TtypeModel::Directional,
            Ttype::Action() => TtypeModel::Action,
            Ttype::Fov() => TtypeModel::Fov,
            Ttype::BreakableCamera() => TtypeModel::BreakableCamera,
            Ttype::StaticCamera() => TtypeModel::StaticCamera,
            Ttype::PedGroup() => TtypeModel::PedGroup,
            Ttype::Coin() => TtypeModel::Coin,
            Ttype::SpawnPoint() => TtypeModel::SpawnPoint,
        }
    }

    /// The element-type variant a numeric identifier names; identifiers
    /// beyond the catalog fall back to `Skip`.
    pub open spec fn spec_from_id(id: u32) -> TtypeModel {
        match id {
            0u32 => TtypeModel::Event(Seq::empty()),
            1u32 => TtypeModel::Script,
            2u32 => TtypeModel::Generic,
            3u32 => TtypeModel::CarStart(Seq::empty()),
            4u32 => TtypeModel::Spline,
            5u32 => TtypeModel::DynamicZone(Seq::empty()),
            6u32 => TtypeModel::Occlusion,
            7u32 => TtypeModel::InteriorEntrance,
            8u32 => TtypeModel::Directional,
            9u32 => TtypeModel::Action,
            10u32 => TtypeModel::Fov,
            11u32 => TtypeModel::BreakableCamera,
            12u32 => TtypeModel::StaticCamera,
            13u32 => TtypeModel::PedGroup,
            14u32 => TtypeModel::Coin,
            15u32 => TtypeModel::SpawnPoint,
            _ => TtypeModel::Skip,
        }
    }

    /// Maps a numeric element-type identifier to its (empty) variant.
    pub fn from_id(id: u32) -> (r: Self)
        ensures
            r.model() == Self::spec_from_id(id),
    {
        match id {
            0 => Ttype::Event(Vec::new()),
            1 => Ttype::Script(),
            2 => Ttype::Generic(),
            3 => Ttype::CarStart(Vec::new()),
            4 => Ttype::Spline(),
            5 => Ttype::DynamicZone(String::new()),
            6 => Ttype::Occlusion(),
            7 => Ttype::InteriorEntrance(),
            8 => Ttype::Directional(),
            9 => Ttype::Action(),
            10 => Ttype::Fov(),
            11 => Ttype::BreakableCamera(),
            12 => Ttype::StaticCamera(),
            13 => Ttype::PedGroup(),
            14 => Ttype::Coin(),
            15 => Ttype::SpawnPoint(),
            _ => Ttype::Skip,
        }
    }
}

impl Clone for Ttype {
    fn clone(&self) -> (r: Self)
        ensures
            r.model() == self.model(),
    {
        match self {
            Ttype::Skip => Ttype::Skip,
            Ttype::Event(v) => {
                let c = v.clone();
                proof {
                    assert(c@ =~= v@);
                }
                Ttype::Event(c)
            },
            Ttype::Script() => Ttype::Script(),
            Ttype::Generic() => Ttype::Generic(),
            Ttype::CarStart(v) => {
                let c = v.clone();
                proof {
                    assert(c@ =~= v@);
                }
                Ttype::CarStart(c)
            },
            Ttype::Spline() => Ttype::Spline(),
            Ttype::DynamicZone(s) => Ttype::DynamicZone(s.clone()),
            Ttype::Occlusion() => Ttype::Occlusion(),
            Ttype::InteriorEntrance() => Ttype::InteriorEntrance(),
            Ttype::Directional() => Ttype::Directional(),
            Ttype::Action() => Ttype::Action(),
            Ttype::Fov() => Ttype::Fov(),
            Ttype::BreakableCamera() => Ttype::BreakableCamera(),
            Ttype::StaticCamera() => Ttype::StaticCamera(),
            Ttype::PedGroup() => Ttype::PedGroup(),
            Ttype::Coin() => Ttype::Coin(),
            Ttype::SpawnPoint() => Ttype::SpawnPoint(),
        }
    }
}

/// A named, embedded, self-headered record attached to a locator, carrying
/// a transform.
#[derive(Debug, Default, PartialEq, Eq)]
pub struct Trigger {
    pub name: String,
    pub type_of: u32,
    pub scale: Vec3f,
    pub matrix: Matrix4f,
}

/// The mathematical image of a `Trigger`.
pub ghost struct TriggerModel {
    pub name: Seq<char>,
    pub type_of: u32,
    pub scale: Vec3f,
    pub matrix: Matrix4f,
}

impl Trigger {
    pub fn new() -> (r: Self)
        ensures
            r.name@ == Seq::<char>::empty(),
            r.type_of == 0u32,
            r.scale == (Vec3f { x: 0u32, y: 0u32, z: 0u32 }),
    {
        Trigger {
            name: String::new(),
            type_of: 0,
            scale: crate::chunks::Vec3f::new(),
            matrix: Matrix4f::new(),
        }
    }

    pub open spec fn model(self) -> TriggerModel {
        TriggerModel {
            name: self.name@,
            type_of: self.type_of,
            scale: self.scale,
            matrix: self.matrix,
        }
    }
}

impl Clone for Trigger {
    fn clone(&self) -> (r: Self)
        ensures
            r == *self,
    {
        Trigger {
            name: self.name.clone(),
            type_of: self.type_of,
            scale: self.scale,
            matrix: self.matrix,
        }
    }
}

/// A named anchor record: a typed auxiliary block, a position and an
/// attached list of triggers.
#[derive(Debug, Default, PartialEq, Eq)]
pub struct Locator {
    pub name: String,
    pub ttype: u32,
    pub elements: Ttype,
    pub position: Vec3f,
    pub triggers: Vec<Trigger>,
}

/// The mathematical image of a `Locator`.
pub ghost struct LocatorModel {
    pub name: Seq<char>,
    pub ttype: u32,
    pub elements: TtypeModel,
    pub position: Vec3f,
    pub triggers: Seq<TriggerModel>,
}

/// The models of a run of triggers, in order.
pub open spec fn trigger_models(s: Seq<Trigger>) -> Seq<TriggerModel> {
    Seq::new(s.len(), |i: int| s[i].model())
}

impl Locator {
    pub fn new() -> (r: Self)
        ensures
            r.name@ == Seq::<char>::empty(),
            r.ttype == 0u32,
            r.elements == Ttype::Skip,
            r.position == (Vec3f { x: 0u32, y: 0u32, z: 0u32 }),
            r.triggers@ == Seq::<Trigger>::empty(),
    {
        Locator {
            name: String::new(),
            ttype: 0,
            elements: Ttype::Skip,
            position: crate::chunks::Vec3f::new(),
            triggers: Vec::new(),
        }
    }

    pub open spec fn model(self) -> LocatorModel {
        LocatorModel {
            name: self.name@,
            ttype: self.ttype,
            elements: self.elements.model(),
            position: self.position,
            triggers: trigger_models(self.triggers@),
        }
    }
}

impl Clone for Locator {
    fn clone(&self) -> (r: Self)
        ensures
            r.model() == self.model(),
    {
        let triggers = self.triggers.clone();
        proof {
            assert(triggers@ =~= self.triggers@);
        }
        Locator {
            name: self.name.clone(),
            ttype: self.ttype,
            elements: self.elements.clone(),
            position: self.position,
            triggers,
        }
    }
}

/// A length-prefixed name field: one length byte, that many raw bytes,
/// trailing NUL padding stripped.
pub open spec fn spec_name(b: Seq<u8>, pos: int, end: int) -> Result<
    (Seq<char>, int),
    DecodeError,
> {
    if pos + 1 > end {
        Err(DecodeError::TruncatedInput)
    } else {
        let n = b[pos] as int;
        if pos + 1 + n > end {
            Err(DecodeError::TruncatedInput)
        } else {
            Ok((string_model(b.subrange(pos + 1, pos + 1 + n)), pos + 1 + n))
        }
    }
}

/// Decodes a length-prefixed name field and returns it with the cursor
/// after it.
pub fn read_name(b: &Vec<u8>, pos: usize, end: usize) -> (r: Result<(String, usize), DecodeError>)
    requires
        pos <= end <= b.len(),
    ensures
        match r {
            Ok((s, next)) => spec_name(b@, pos as int, end as int) == Ok::<
                (Seq<char>, int),
                DecodeError,
            >((s@, next as int)),
            Err(e) => spec_name(b@, pos as int, end as int) == Err::<
                (Seq<char>, int),
                DecodeError,
            >(e),
        },
{
    if end - pos < 1 {
        return Err(DecodeError::TruncatedInput);
    }
    let n = read_u8(b, pos) as usize;
    if n > end - (pos + 1) {
        return Err(DecodeError::TruncatedInput);
    }
    let raw = read_bytes(b, pos + 1, n);
    let s = decode_text(&raw);
    Ok((s, pos + 1 + n))
}

/// A locator's element block: exactly `count * 4` raw bytes; element type 5
/// reads them as a NUL-padded name, every other type skips them opaquely.
pub open spec fn spec_elements(b: Seq<u8>, pos: int, end: int, ttype: u32, count: u32) -> Result<
    (TtypeModel, int),
    DecodeError,
> {
    let len = count * 4;
    if pos + len > end {
        Err(DecodeError::TruncatedInput)
    } else if ttype == 5 {
        Ok((TtypeModel::DynamicZone(string_model(b.subrange(pos, pos + len))), pos + len))
    } else {
        Ok((TtypeModel::Skip, pos + len))
    }
}

/// Decodes a locator's element block.
pub fn decode_elements(b: &Vec<u8>, pos: usize, end: usize, ttype: u32, count: u32) -> (r: Result<
    (Ttype, usize),
    DecodeError,
>)
    requires
        pos <= end <= b.len(),
    ensures
        match r {
            Ok((t, next)) => spec_elements(b@, pos as int, end as int, ttype, count) == Ok::<
                (TtypeModel, int),
                DecodeError,
            >((t.model(), next as int)),
            Err(e) => spec_elements(b@, pos as int, end as int, ttype, count) == Err::<
                (TtypeModel, int),
                DecodeError,
            >(e),
        },
{
    if count as usize > (end - pos) / 4 {
        return Err(DecodeError::TruncatedInput);
    }
    let len = (count as usize) * 4;
    if ttype == 5 {
        let raw = read_bytes(b, pos, len);
        let s = decode_text(&raw);
        Ok((Ttype::DynamicZone(s), pos + len))
    } else {
        Ok((Ttype::Skip, pos + len))
    }
}

/// One embedded trigger record: a 12-byte inline header whose tag must be
/// the trigger magic, then name, type, scale and a 4x4 transform.
pub open spec fn spec_trigger(b: Seq<u8>, pos: int, end: int) -> Result<
    (TriggerModel, int),
    DecodeError,
> {
    if pos + 12 > end {
        Err(DecodeError::TruncatedInput)
    } else if le32_at(b, pos) != TRIGGER {
        Err(DecodeError::MagicMismatch)
    } else {
        match spec_name(b, pos + 12, end) {
            Err(e) => Err(e),
            Ok((name, p)) => {
                if p + 80 > end {
                    Err(DecodeError::TruncatedInput)
                } else {
                    Ok(
                        (
                            TriggerModel {
                                name,
                                type_of: le32_at(b, p),
                                scale: spec_vec3_at(b, p + 4),
                                matrix: spec_matrix4_at(b, p + 16),
                            },
                            p + 80,
                        ),
                    )
                }
            },
        }
    }
}

/// Decodes one embedded trigger record; `MagicMismatch` if its inline
/// header carries any tag but the trigger magic.
pub fn decode_trigger(b: &Vec<u8>, pos: usize, end: usize) -> (r: Result<
    (Trigger, usize),
    DecodeError,
>)
    requires
        pos <= end <= b.len(),
    ensures
        match r {
            Ok((t, next)) => spec_trigger(b@, pos as int, end as int) == Ok::<
                (TriggerModel, int),
                DecodeError,
            >((t.model(), next as int)),
            Err(e) => spec_trigger(b@, pos as int, end as int) == Err::<
                (TriggerModel, int),
                DecodeError,
            >(e),
        },
{
    if end - pos < 12 {
        return Err(DecodeError::TruncatedInput);
    }
    let tag = read_u32(b, pos);
    if tag != TRIGGER {
        return Err(DecodeError::MagicMismatch);
    }
    let (name, p) = match read_name(b, pos + 12, end) {
        Ok(v) => v,
        Err(e) => {
            return Err(e);
        },
    };
    if end - p < 80 {
        return Err(DecodeError::TruncatedInput);
    }
    let type_of = read_u32(b, p);
    let scale = read_vec3(b, p + 4);
    let matrix = read_matrix4(b, p + 16);
    Ok((Trigger { name, type_of, scale, matrix }, p + 80))
}

/// A run of `n` trigger records, decoded back to back.
pub open spec fn spec_triggers(b: Seq<u8>, pos: int, end: int, n: u32) -> Result<
    Seq<TriggerModel>,
    DecodeError,
>
    decreases n,
{
    if n == 0 {
        Ok(Seq::empty())
    } else {
        match spec_trigger(b, pos, end) {
            Err(e) => Err(e),
            Ok((t, p)) => match spec_triggers(b, p, end, (n - 1) as u32) {
                Err(e) => Err(e),
                Ok(rest) => Ok(Seq::empty().push(t) + rest),
            },
        }
    }
}

/// Decodes a run of `n` trigger records.
pub fn decode_triggers(b: &Vec<u8>, pos: usize, end: usize, n: u32) -> (r: Result<
    Vec<Trigger>,
    DecodeError,
>)
    requires
        pos <= end <= b.len(),
    ensures
        match r {
            Ok(ts) => spec_triggers(b@, pos as int, end as int, n) == Ok::<
                Seq<TriggerModel>,
                DecodeError,
            >(trigger_models(ts@)),
            Err(e) => spec_triggers(b@, pos as int, end as int, n) == Err::<
                Seq<TriggerModel>,
                DecodeError,
            >(e),
        },
{
    let mut out: Vec<Trigger> = Vec::new();
    let mut i: u32 = 0;
    let mut cur: usize = pos;
    while i < n
        invariant
            i <= n,
            pos <= cur <= end <= b.len(),
            match spec_triggers(b@, cur as int, end as int, (n - i) as u32) {
                Ok(rest) => spec_triggers(b@, pos as int, end as int, n) == Ok::<
                    Seq<TriggerModel>,
                    DecodeError,
                >(trigger_models(out@) + rest),
                Err(e) => spec_triggers(b@, pos as int, end as int, n) == Err::<
                    Seq<TriggerModel>,
                    DecodeError,
                >(e),
            },
        decreases n - i,
    {
        let ghost prev_cur = cur as int;
        let ghost prev_models = trigger_models(out@);
        let ghost k = (n - i) as u32;
        let (t, p) = match decode_trigger(b, cur, end) {
            Ok(v) => v,
            Err(e) => {
                return Err(e);
            },
        };
        out.push(t);
        cur = p;
        i += 1;
        proof {
            assert(trigger_models(out@) =~= prev_models + Seq::empty().push(t.model()));
            match spec_triggers(b@, cur as int, end as int, (n - i) as u32) {
                Ok(rest) => {
                    assert(spec_triggers(b@, prev_cur, end as int, k) == Ok::<
                        Seq<TriggerModel>,
                        DecodeError,
                    >(Seq::empty().push(t.model()) + rest));
                    assert(prev_models + (Seq::empty().push(t.model()) + rest) =~= trigger_models(
                        out@,
                    ) + rest);
                },
                Err(e) => {
                    assert(spec_triggers(b@, prev_cur, end as int, k) == Err::<
                        Seq<TriggerModel>,
                        DecodeError,
                    >(e));
                },
            }
        }
    }
    Ok(out)
}

/// A locator payload: name, element type, element count, the element block
/// of exactly `count * 4` bytes, a position, then a counted run of embedded
/// trigger records.  Trailing payload bytes are ignored.
pub open spec fn spec_locator_payload(b: Seq<u8>, pos: int, end: int) -> Result<
    LocatorModel,
    DecodeError,
> {
    match spec_name(b, pos, end) {
        Err(e) => Err(e),
        Ok((name, p0)) => {
            if p0 + 8 > end {
                Err(DecodeError::TruncatedInput)
            } else {
                let ttype = le32_at(b, p0);
                let count = le32_at(b, p0 + 4);
                match spec_elements(b, p0 + 8, end, ttype, count) {
                    Err(e) => Err(e),
                    Ok((elements, p1)) => {
                        if p1 + 16 > end {
                            Err(DecodeError::TruncatedInput)
                        } else {
                            let position = spec_vec3_at(b, p1);
                            let ntrig = le32_at(b, p1 + 12);
                            match spec_triggers(b, p1 + 16, end, ntrig) {
                                Err(e) => Err(e),
                                Ok(triggers) => Ok(
                                    LocatorModel { name, ttype, elements, position, triggers },
                                ),
                            }
                        }
                    },
                }
            }
        },
    }
}

/// Decodes a locator payload.
pub fn decode_locator(b: &Vec<u8>, pos: usize, end: usize) -> (r: Result<Locator, DecodeError>)
    requires
        pos <= end <= b.len(),
    ensures
        match r {
            Ok(l) => spec_locator_payload(b@, pos as int, end as int) == Ok::<
                LocatorModel,
                DecodeError,
            >(l.model()),
            Err(e) => spec_locator_payload(b@, pos as int, end as int) == Err::<
                LocatorModel,
                DecodeError,
            >(e),
        },
{
    let (name, p0) = match read_name(b, pos, end) {
        Ok(v) => v,
        Err(e) => {
            return Err(e);
        },
    };
    if end - p0 < 8 {
        return Err(DecodeError::TruncatedInput);
    }
    let ttype = read_u32(b, p0);
    let count = read_u32(b, p0 + 4);
    let (elements, p1) = match decode_elements(b, p0 + 8, end, ttype, count) {
        Ok(v) => v,
        Err(e) => {
            return Err(e);
        },
    };
    if end - p1 < 16 {
        return Err(DecodeError::TruncatedInput);
    }
    let position = read_vec3(b, p1);
    let ntrig = read_u32(b, p1 + 12);
    let triggers = match decode_triggers(b, p1 + 16, end, ntrig) {
        Ok(v) => v,
        Err(e) => {
            return Err(e);
        },
    };
    Ok(Locator { name, ttype, elements, position, triggers })
}

} // verus!
