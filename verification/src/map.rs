//! Records of the map model data: prop level-of-detail selection and the
//! foliage material table.
use vstd::prelude::*;

use crate::cursor::{read_cstring, u32_at, Endian};
use crate::error::Xc3Error;
use crate::msmd::read_u32s;

verus! {

/// Selects a run of prop meshes for one level of detail.
#[derive(Clone, Copy, Debug, PartialEq, Eq, Structural)]
pub struct PropLod {
    pub base_lod_index: u32,
    pub lod_count: u32,
}

impl PropLod {
    /// Decodes the eight-byte record at `pos`.
    pub fn read(data: &Vec<u8>, pos: usize) -> (r: Result<PropLod, Xc3Error>)
        ensures
            pos + 8 <= data.len() ==> (r matches Ok(p) && p.base_lod_index == u32_at(data@,
                pos as int, Endian::Little) && p.lod_count == u32_at(data@, pos + 4,
                Endian::Little)),
            pos + 8 > data.len() ==> (r matches Err(er) && er matches Xc3Error::UnexpectedEof {
                ..
            }),
    {
        let base_lod_index = match crate::cursor::read_u32(data, pos, Endian::Little) {
            Ok(v) => v,
            Err(er) => {
                return Err(er);
            }
        };
        let lod_count = match crate::cursor::read_u32(data, pos + 4, Endian::Little) {
            Ok(v) => v,
            Err(er) => {
                return Err(er);
            }
        };
        Ok(PropLod { base_lod_index, lod_count })
    }
}

/// One foliage material: its name and seven opaque scalars.
#[derive(Clone, Debug, PartialEq, Eq)]
pub struct FoliageMaterial {
    /// The material name, resolved from its string pointer.
    pub name: Vec<u8>,
    pub unk1: u32,
    pub unk2: u32,
    pub unk3: u32,
    pub unk4: u32,
    pub unk5: u32,
    pub unk6: u32,
    pub unk7: u32,
}

/// The foliage material table.
#[derive(Clone, Debug, PartialEq, Eq)]
pub struct FoliageMaterials {
    pub materials: Vec<FoliageMaterial>,
}

impl FoliageMaterials {
    /// Decodes the table whose base is `pos`: an offset and count of
    /// 32-byte material records relative to the base, each holding a
    /// string pointer relative to the base and seven scalars.
    pub fn read(data: &Vec<u8>, pos: usize) -> (r: Result<FoliageMaterials, Xc3Error>)
        ensures
            r matches Ok(t) ==> t.materials@.len() == u32_at(data@, pos + 4, Endian::Little),
    {
        let e = Endian::Little;
        let offset = match crate::cursor::read_u32(data, pos, e) {
            Ok(v) => v,
            Err(er) => {
                return Err(er);
            }
        };
        let count = match crate::cursor::read_u32(data, pos + 4, e) {
            Ok(v) => v,
            Err(er) => {
                return Err(er);
            }
        };
        if (pos as u128) + (offset as u128) > u32::MAX as u128 {
            return Err(Xc3Error::OffsetOutOfBounds { offset: offset as usize,
                file_size: data.len() });
        }
        let base = pos as u32 + offset;
        match crate::cursor::check_region(data.len(), base, count, 32) {
            Ok(_) => {}
            Err(er) => {
                return Err(er);
            }
        }
        let mut materials: Vec<FoliageMaterial> = Vec::new();
        let mut i: u32 = 0;
        while i < count
            invariant
                i <= count,
                materials@.len() == i,
                crate::cursor::region_in_bounds(base as int, count as int, 32,
                    data@.len() as int),
                data@.len() <= usize::MAX,
                pos + 8 <= data@.len(),
            decreases count - i,
        {
            proof {
                vstd::arithmetic::mul::lemma_mul_inequality(i as int + 1, count as int, 32);
                assert((i as int + 1) * 32 == i as int * 32 + 32) by (nonlinear_arith);
                vstd::arithmetic::mul::lemma_mul_is_commutative(count as int, 32);
                vstd::arithmetic::mul::lemma_mul_is_commutative(i as int + 1, 32);
            }
            let rec = base as usize + 32 * i as usize;
            let name_ptr = crate::vertex::read_u32_in_pub(data, rec, e);
            let body = match read_u32s(data, rec + 4, 7) {
                Ok(v) => v,
                Err(er) => {
                    return Err(er);
                }
            };
            if (pos as u128) + (name_ptr as u128) > usize::MAX as u128 {
                return Err(Xc3Error::OffsetOutOfBounds { offset: name_ptr as usize,
                    file_size: data.len() });
            }
            let name = match read_cstring(data, pos + name_ptr as usize) {
                Ok(v) => v,
                Err(er) => {
                    return Err(er);
                }
            };
            materials.push(FoliageMaterial {
                name,
                unk1: body[0],
                unk2: body[1],
                unk3: body[2],
                unk4: body[3],
                unk5: body[4],
                unk6: body[5],
                unk7: body[6],
            });
            i += 1;
        }
        Ok(FoliageMaterials { materials })
    }
}

/// The texture indices one map texture reference carries.
#[derive(Clone, Copy, Debug, PartialEq, Eq, Structural)]
pub struct TextureKey {
    pub low_texture_index: i16,
    pub low_textures_entry_index: i16,
    pub texture_index: i16,
}

/// The texture index cache used during map assembly: each key is written
/// once, keys keep their insertion order, and a repeated insert returns
/// the index the key already has.
#[derive(Clone, Debug, PartialEq, Eq)]
pub struct TextureIndexCache {
    keys: Vec<TextureKey>,
}

impl TextureIndexCache {
    /// No key appears twice.
    pub closed spec fn wf(self) -> bool {
        forall|a: int, b: int| 0 <= a < b < self.keys@.len() ==> self.keys@[a] != self.keys@[b]
    }

    /// The keys in insertion order.
    pub closed spec fn view(self) -> Seq<TextureKey> {
        self.keys@
    }

    /// An empty cache.
    pub fn new() -> (r: TextureIndexCache)
        ensures
            r.view() == Seq::<TextureKey>::empty(),
            r.wf(),
    {
        TextureIndexCache { keys: Vec::new() }
    }

    /// The number of distinct keys inserted so far.
    pub fn len(&self) -> (r: usize)
        ensures
            r == self.view().len(),
    {
        self.keys.len()
    }

    /// The key at one assigned index.
    pub fn get(&self, i: usize) -> (r: Option<TextureKey>)
        ensures
            i < self.view().len() ==> r == Some(self.view()[i as int]),
            i >= self.view().len() ==> r is None,
    {
        if i < self.keys.len() {
            Some(self.keys[i])
        } else {
            None
        }
    }

    /// Assigns the key its image texture index.
    ///
    /// A key seen before keeps its index and the cache is unchanged; a
    /// new key is appended, preserving insertion order. Either way the
    /// returned index names exactly this key.
    pub fn insert(&mut self, key: TextureKey) -> (r: usize)
        requires
            old(self).wf(),
        ensures
            final(self).wf(),
            r < final(self).view().len(),
            final(self).view()[r as int] == key,
            old(self).view().contains(key) ==> final(self).view() == old(self).view(),
            !old(self).view().contains(key) ==> final(self).view() == old(self).view().push(key)
                && r == old(self).view().len(),
    {
        let n = self.keys.len();
        let mut i: usize = 0;
        while i < n
            invariant
                i <= n,
                n == self.keys@.len(),
                *self == *old(self),
                old(self).wf(),
                forall|m: int| 0 <= m < i ==> self.keys@[m] != key,
            decreases n - i,
        {
            if self.keys[i] == key {
                proof {
                    assert(self.keys@[i as int] == key);
                    assert(self.keys@.contains(key));
                }
                return i;
            }
            i += 1;
        }
        proof {
            assert(!self.keys@.contains(key));
        }
        self.keys.push(key);
        n
    }
}

/// One prop instance: its 4x4 column-major transform as sixteen float bit
/// patterns, and the prop-lod entry it selects.
#[derive(Clone, Copy, Debug, PartialEq, Eq)]
pub struct PropInstance {
    pub transform: [u32; 16],
    pub prop_index: u32,
}

/// The model each prop instance is routed to: the low 28 bits of its
/// prop-lod entry's base index.
pub open spec fn instance_model(inst: PropInstance, props: Seq<PropLod>) -> int {
    (props[inst.prop_index as int].base_lod_index & 0xFFF_FFFF) as int
}

/// The transforms of `instances` that route to model `k`, in order.
pub open spec fn routed_transforms(instances: Seq<PropInstance>, props: Seq<PropLod>, k: int)
    -> Seq<[u32; 16]>
    decreases instances.len(),
{
    if instances.len() == 0 {
        Seq::empty()
    } else if instance_model(instances.last(), props) == k {
        routed_transforms(instances.drop_last(), props, k).push(instances.last().transform)
    } else {
        routed_transforms(instances.drop_last(), props, k)
    }
}

/// One more instance extends the routing of exactly its own model.
proof fn lemma_routed_take(instances: Seq<PropInstance>, props: Seq<PropLod>, k: int, i: int)
    requires
        0 <= i < instances.len(),
    ensures
        routed_transforms(instances.take(i + 1), props, k) == (if instance_model(instances[i],
            props) == k {
            routed_transforms(instances.take(i), props, k).push(instances[i].transform)
        } else {
            routed_transforms(instances.take(i), props, k)
        }),
{
    assert(instances.take(i + 1).drop_last() =~= instances.take(i));
    assert(instances.take(i + 1).last() == instances[i]);
}

/// Routes every prop instance's transform to its base level-of-detail
/// model: instance `i` is appended to the model named by the low 28 bits
/// of `props[instances[i].prop_index].base_lod_index`, in input order.
///
/// Succeeds exactly when every instance names an existing prop-lod entry
/// and an existing model; it fails without routing anything, with the
/// offending index, otherwise. With no models at all nothing is routed.
pub fn add_prop_instances(
    model_instances: &mut Vec<Vec<[u32; 16]>>,
    props: &Vec<PropLod>,
    instances: &Vec<PropInstance>,
) -> (r: Result<(), Xc3Error>)
    ensures
        final(model_instances)@.len() == old(model_instances)@.len(),
        old(model_instances)@.len() == 0 ==> final(model_instances)@ == old(model_instances)@,
        r is Ok && old(model_instances)@.len() > 0 ==> forall|k: int|
            0 <= k < old(model_instances)@.len() ==> (#[trigger] final(model_instances)@[k])@
            == old(model_instances)@[k]@ + routed_transforms(instances@, props@, k),
        old(model_instances)@.len() > 0 ==> (r is Ok <==> forall|i: int|
            0 <= i < instances@.len() ==> (#[trigger] instances@[i]).prop_index < props@.len()
            && instance_model(instances@[i], props@) < old(model_instances)@.len()),
        old(model_instances)@.len() == 0 ==> r is Ok,
        r is Err ==> final(model_instances)@ == old(model_instances)@,
{
    if model_instances.len() == 0 {
        return Ok(());
    }
    let mut c: usize = 0;
    while c < instances.len()
        invariant
            c <= instances@.len(),
            model_instances@ == old(model_instances)@,
            model_instances@.len() > 0,
            forall|m: int| 0 <= m < c ==> (#[trigger] instances@[m]).prop_index < props@.len()
                && instance_model(instances@[m], props@) < model_instances@.len(),
        decreases instances@.len() - c,
    {
        let inst = instances[c];
        if inst.prop_index as usize >= props.len() {
            return Err(Xc3Error::OffsetOutOfBounds { offset: inst.prop_index as usize,
                file_size: props.len() });
        }
        let target = (props[inst.prop_index as usize].base_lod_index & 0xFFF_FFFF) as usize;
        if target >= model_instances.len() {
            return Err(Xc3Error::OffsetOutOfBounds { offset: target,
                file_size: model_instances.len() });
        }
        c += 1;
    }
    let ghost orig = model_instances@;
    let mut i: usize = 0;
    while i < instances.len()
        invariant
            i <= instances@.len(),
            model_instances@.len() == orig.len(),
            orig.len() > 0,
            forall|m: int| 0 <= m < instances@.len() ==> (
            #[trigger] instances@[m]).prop_index < props@.len() && instance_model(instances@[m],
                props@) < orig.len(),
            forall|k: int| 0 <= k < orig.len() ==> (#[trigger] model_instances@[k])@ == orig[k]@
                + routed_transforms(instances@.take(i as int), props@, k),
        decreases instances@.len() - i,
    {
        let inst = instances[i];
        let target = (props[inst.prop_index as usize].base_lod_index & 0xFFF_FFFF) as usize;
        proof {
            assert(instance_model(instances@[i as int], props@) == target);
        }
        let ghost before = model_instances@;
        let mut inner = model_instances.remove(target);
        inner.push(inst.transform);
        model_instances.insert(target, inner);
        proof {
            assert forall|k: int| 0 <= k < orig.len() implies (
            #[trigger] model_instances@[k])@ == orig[k]@ + routed_transforms(instances@.take(
                i as int + 1), props@, k) by {
                lemma_routed_take(instances@, props@, k, i as int);
                if k == target {
                    assert(model_instances@[k] == inner);
                    assert(inner@ == before[target as int]@.push(inst.transform));
                    assert(orig[k]@ + routed_transforms(instances@.take(i as int), props@,
                        k).push(inst.transform) =~= (orig[k]@ + routed_transforms(
                        instances@.take(i as int), props@, k)).push(inst.transform));
                } else if k < target {
                    assert(model_instances@[k] == before.remove(target as int).insert(
                        target as int, inner)[k]);
                    assert(model_instances@[k] == before[k]);
                } else {
                    assert(model_instances@[k] == before.remove(target as int).insert(
                        target as int, inner)[k]);
                    assert(before.remove(target as int)[k - 1] == before[k]);
                    assert(model_instances@[k] == before[k]);
                }
            }
        }
        i += 1;
    }
    proof {
        assert(instances@.take(instances@.len() as int) =~= instances@);
    }
    Ok(())
}

} // verus!
