use vstd::prelude::*;

use crate::platform::{platform_extension_names, platform_required_instance_extensions};

verus! {

/// Packs a variant and a major, minor and patch number into the driver's
/// 32-bit version word: variant in bits 29.., major in 22.., minor in 12..,
/// patch in 0.. (bits shifted past bit 31 are dropped).
pub open spec fn packed_version(variant: u32, major: u32, minor: u32, patch: u32) -> u32 {
    ((variant << 29u32) | (major << 22u32) | (minor << 12u32) | patch) as u32
}

/// Relies on ash::vk::make_api_version: it returns
/// `(variant << 29) | (major << 22) | (minor << 12) | patch` on `u32`.
#[verifier::external_body]
fn make_api_version(variant: u32, major: u32, minor: u32, patch: u32) -> (r: u32)
    ensures
        r == packed_version(variant, major, minor, patch),
{
    ash::vk::make_api_version(variant, major, minor, patch)
}

/// An application or engine version: three non-negative numbers.
#[derive(Copy, Clone, Debug, PartialEq, Eq, Structural)]
pub struct Version {
    pub major: u32,
    pub minor: u32,
    pub patch: u32,
}

impl Version {
    pub fn new(major_: u32, minor_: u32, patch_: u32) -> (r: Version)
        ensures
            r.major == major_,
            r.minor == minor_,
            r.patch == patch_,
    {
        Version { major: major_, minor: minor_, patch: patch_ }
    }

    /// The packed driver representation of this version (variant 0).
    pub fn to_vk(&self) -> (r: u32)
        ensures
            r == packed_version(0, self.major, self.minor, self.patch),
    {
        make_api_version(0, self.major, self.minor, self.patch)
    }
}

/// The names held by a list of strings.
pub open spec fn names(v: Seq<String>) -> Seq<Seq<char>> {
    v.map_values(|s: String| s@)
}

/// `exts` followed by each name of `required` that is not already present,
/// in the order of `required`.
pub open spec fn merged(exts: Seq<Seq<char>>, required: Seq<Seq<char>>) -> Seq<Seq<char>>
    decreases required.len(),
{
    if required.len() == 0 {
        exts
    } else {
        let m = merged(exts, required.drop_last());
        if m.contains(required.last()) {
            m
        } else {
            m.push(required.last())
        }
    }
}

/// A name is in the merged list exactly when it is in the given list or in
/// the required list.
pub proof fn lemma_merged_membership(exts: Seq<Seq<char>>, required: Seq<Seq<char>>, x: Seq<char>)
    ensures
        merged(exts, required).contains(x) <==> (exts.contains(x) || required.contains(x)),
    decreases required.len(),
{
    if required.len() > 0 {
        let rest = required.drop_last();
        lemma_merged_membership(exts, rest, x);
        assert(required == rest.push(required.last()));
        if rest.contains(x) {
            let k = choose|k: int| 0 <= k < rest.len() && rest[k] == x;
            assert(required[k] == x);
        }
        if required.contains(x) && x != required.last() {
            let k = choose|k: int| 0 <= k < required.len() && required[k] == x;
            assert(rest[k] == x);
        }
        let m = merged(exts, rest);
        if !m.contains(required.last()) {
            assert(m.push(required.last())[m.len() as int] == required.last());
            if m.contains(x) {
                let k = choose|k: int| 0 <= k < m.len() && m[k] == x;
                assert(m.push(required.last())[k] == x);
            }
            if m.push(required.last()).contains(x) && x != required.last() {
                let k = choose|k: int| 0 <= k < m.len() + 1 && m.push(required.last())[k] == x;
                assert(m[k] == x);
            }
        }
    }
}

/// Membership of the merged list does not depend on the order (or the
/// repetitions) of either input: the result's set of names is their union.
pub proof fn lemma_merged_order_independent(
    e1: Seq<Seq<char>>,
    e2: Seq<Seq<char>>,
    r1: Seq<Seq<char>>,
    r2: Seq<Seq<char>>,
)
    requires
        e1.to_set() == e2.to_set(),
        r1.to_set() == r2.to_set(),
    ensures
        merged(e1, r1).to_set() == merged(e2, r2).to_set(),
        merged(e1, r1).to_set() == e1.to_set().union(r1.to_set()),
{
    assert forall|x: Seq<char>| merged(e1, r1).to_set().contains(x) <==> merged(e2, r2).to_set().contains(x) by {
        lemma_merged_membership(e1, r1, x);
        lemma_merged_membership(e2, r2, x);
        assert(merged(e1, r1).to_set().contains(x) == merged(e1, r1).contains(x));
        assert(merged(e2, r2).to_set().contains(x) == merged(e2, r2).contains(x));
        assert(e1.to_set().contains(x) == e1.contains(x));
        assert(e2.to_set().contains(x) == e2.contains(x));
        assert(r1.to_set().contains(x) == r1.contains(x));
        assert(r2.to_set().contains(x) == r2.contains(x));
        assert(e1.to_set().contains(x) == e2.to_set().contains(x));
        assert(r1.to_set().contains(x) == r2.to_set().contains(x));
    }
    assert forall|x: Seq<char>| merged(e1, r1).to_set().contains(x) <==> e1.to_set().union(r1.to_set()).contains(x) by {
        lemma_merged_membership(e1, r1, x);
    }
    assert(merged(e1, r1).to_set() =~= merged(e2, r2).to_set());
    assert(merged(e1, r1).to_set() =~= e1.to_set().union(r1.to_set()));
}

/// Merging never repeats a name: a list without repeated names stays without
/// them, whatever is required (a required name already given is not added).
pub proof fn lemma_merged_no_duplicates(exts: Seq<Seq<char>>, required: Seq<Seq<char>>)
    requires
        exts.no_duplicates(),
    ensures
        merged(exts, required).no_duplicates(),
    decreases required.len(),
{
    if required.len() > 0 {
        let m = merged(exts, required.drop_last());
        lemma_merged_no_duplicates(exts, required.drop_last());
        if !m.contains(required.last()) {
            let p = m.push(required.last());
            assert forall|i: int, j: int| 0 <= i < p.len() && 0 <= j < p.len() && i != j implies p[i] != p[j] by {
                if i == m.len() {
                    assert(m[j] == p[j]);
                } else if j == m.len() {
                    assert(m[i] == p[i]);
                }
            }
        }
    }
}

/// Merging keeps the given list as a prefix and appends only names it does
/// not hold, each at most once: a name already given is never repeated.
pub proof fn lemma_merged_appends_only_new(exts: Seq<Seq<char>>, required: Seq<Seq<char>>)
    ensures
        merged(exts, required).len() >= exts.len(),
        merged(exts, required).subrange(0, exts.len() as int) == exts,
        forall|k: int| exts.len() <= k < merged(exts, required).len()
            ==> !exts.contains(#[trigger] merged(exts, required)[k]),
        forall|k: int, l: int| exts.len() <= k < l < merged(exts, required).len()
            ==> merged(exts, required)[k] != merged(exts, required)[l],
    decreases required.len(),
{
    if required.len() > 0 {
        let m = merged(exts, required.drop_last());
        lemma_merged_appends_only_new(exts, required.drop_last());
        if !m.contains(required.last()) {
            let p = m.push(required.last());
            assert(p.subrange(0, exts.len() as int) =~= m.subrange(0, exts.len() as int));
            assert forall|k: int| exts.len() <= k < p.len() implies !exts.contains(#[trigger] p[k]) by {
                if k == m.len() {
                    if exts.contains(p[k]) {
                        let j = choose|j: int| 0 <= j < exts.len() && exts[j] == p[k];
                        assert(m.subrange(0, exts.len() as int)[j] == m[j]);
                        assert(m.contains(required.last()));
                    }
                } else {
                    assert(p[k] == m[k]);
                }
            }
            assert forall|k: int, l: int| exts.len() <= k < l < p.len() implies p[k] != p[l] by {
                if l == m.len() {
                    assert(p[k] == m[k]);
                } else {
                    assert(p[k] == m[k] && p[l] == m[l]);
                }
            }
        }
    }
}

/// When every required name is already present, merging changes nothing.
proof fn lemma_merged_of_present(exts: Seq<Seq<char>>, required: Seq<Seq<char>>)
    requires
        forall|i: int| 0 <= i < required.len() ==> exts.contains(#[trigger] required[i]),
    ensures
        merged(exts, required) == exts,
    decreases required.len(),
{
    if required.len() > 0 {
        let rest = required.drop_last();
        assert forall|i: int| 0 <= i < rest.len() implies exts.contains(#[trigger] rest[i]) by {
            assert(rest[i] == required[i]);
        }
        lemma_merged_of_present(exts, rest);
        assert(exts.contains(required[required.len() - 1]));
    }
}

/// Merging the same required names a second time changes nothing.
pub proof fn lemma_merge_idempotent(exts: Seq<Seq<char>>, required: Seq<Seq<char>>)
    ensures
        merged(merged(exts, required), required) == merged(exts, required),
{
    let m = merged(exts, required);
    assert forall|i: int| 0 <= i < required.len() implies m.contains(#[trigger] required[i]) by {
        lemma_merged_membership(exts, required, required[i]);
    }
    lemma_merged_of_present(m, required);
}

/// Whether `v` holds a string equal to `name`.
fn contains_name(v: &Vec<String>, name: &String) -> (r: bool)
    ensures
        r == names(v@).contains(name@),
{
    let mut j: usize = 0;
    while j < v.len()
        invariant
            j <= v.len(),
            forall|k: int| 0 <= k < j ==> names(v@)[k] != name@,
        decreases v.len() - j,
    {
        if v[j] == *name {
            assert(names(v@)[j as int] == name@);
            return true;
        }
        j += 1;
    }
    false
}

/// Appends to `extensions` each name of `required` that it does not already
/// hold (union by name; nothing already present is repeated).
pub fn merge_extensions(extensions: Vec<String>, required: &Vec<String>) -> (r: Vec<String>)
    ensures
        names(r@) == merged(names(extensions@), names(required@)),
{
    let mut exts = extensions;
    let mut i: usize = 0;
    while i < required.len()
        invariant
            i <= required.len(),
            names(exts@) == merged(names(extensions@), names(required@).take(i as int)),
        decreases required.len() - i,
    {
        let ghost before = names(exts@);
        let ghost req = names(required@).take(i as int + 1);
        assert(req.drop_last() == names(required@).take(i as int));
        assert(req.last() == required@[i as int]@);
        if !contains_name(&exts, &required[i]) {
            exts.push(required[i].clone());
            assert(names(exts@) == before.push(required@[i as int]@));
        }
        i += 1;
    }
    assert(names(required@).take(required.len() as int) == names(required@));
    exts
}

/// Everything the driver needs to create an instance: application metadata,
/// a fixed engine identity, the target API version, and the name lists.
pub struct InstanceRequest {
    pub app_name: String,
    pub app_version: u32,
    pub engine_name: String,
    pub engine_version: u32,
    pub api_version: u32,
    pub extensions: Vec<String>,
    pub layers: Vec<String>,
}

/// The API version every instance targets: 1.2.0.
pub open spec fn target_api_version() -> u32 {
    packed_version(0, 1, 2, 0)
}

impl InstanceRequest {
    /// The request for an instance of `app_name` at `app_version`: the given
    /// extensions merged with the platform's required ones, the given layers,
    /// an empty engine name, engine version 1.0.0 and API version 1.2.0.
    pub fn new(app_name: String, app_version: Version, extensions: Vec<String>, layers: Vec<String>) -> (r: InstanceRequest)
        ensures
            r.app_name@ == app_name@,
            r.app_version == packed_version(0, app_version.major, app_version.minor, app_version.patch),
            r.engine_name@ == Seq::<char>::empty(),
            r.engine_version == packed_version(0, 1, 0, 0),
            r.api_version == target_api_version(),
            names(r.extensions@) == merged(names(extensions@), platform_extension_names()),
            r.layers@ == layers@,
    {
        let required = platform_required_instance_extensions();
        let exts = merge_extensions(extensions, &required);
        let engine = Version::new(1, 0, 0);
        InstanceRequest {
            app_name,
            app_version: app_version.to_vk(),
            engine_name: String::new(),
            engine_version: engine.to_vk(),
            api_version: make_api_version(0, 1, 2, 0),
            extensions: exts,
            layers,
        }
    }
}

/// Why no physical device could be selected.
#[derive(Copy, Clone, Debug, PartialEq, Eq, Structural)]
pub enum SelectError {
    /// The driver reported no physical device at all.
    NoDevice,
}

/// The index `select_gpu(id)` picks among `count` devices: `id` when it is in
/// range, else device 0.
pub open spec fn chosen_gpu_index(id: int, count: int) -> int {
    if 0 <= id < count {
        id
    } else {
        0
    }
}

/// Asking for a device index past the end picks device 0, the same device
/// that the default selection picks.
pub proof fn lemma_out_of_range_gpu_is_default(id: int, count: int)
    requires
        id >= count,
    ensures
        chosen_gpu_index(id, count) == 0,
        chosen_gpu_index(id, count) == chosen_gpu_index(0, count),
{
}

/// One driver call of a context's teardown.
#[derive(Copy, Clone, Debug, PartialEq, Eq, Structural)]
pub enum TeardownStep {
    DestroySurface,
    DestroyInstance,
}

/// A graphics context: the instance, the selected physical device, and the
/// presentation surface with the capability that destroys it. `I`, `G`, `S`
/// and `A` are the driver's instance, device, surface and surface-capability
/// handles.
pub struct VKContext<I, G, S, A> {
    instance: I,
    gpu: Option<G>,
    surface: Option<S>,
    surface_api: Option<A>,
}

impl<I, G: Copy, S: Copy, A> VKContext<I, G, S, A> {
    pub closed spec fn instance_spec(&self) -> I {
        self.instance
    }

    pub closed spec fn gpu_spec(&self) -> Option<G> {
        self.gpu
    }

    pub closed spec fn surface_spec(&self) -> Option<S> {
        self.surface
    }

    pub closed spec fn surface_api_spec(&self) -> Option<A> {
        self.surface_api
    }

    /// A surface is never held without the capability to destroy it.
    pub open spec fn wf(&self) -> bool {
        self.surface_spec().is_some() ==> self.surface_api_spec().is_some()
    }

    /// A context over a freshly created instance: no device, no surface.
    pub fn new(instance: I) -> (r: Self)
        ensures
            r.wf(),
            r.instance_spec() == instance,
            r.gpu_spec() is None,
            r.surface_spec() is None,
            r.surface_api_spec() is None,
    {
        VKContext { instance, gpu: None, surface: None, surface_api: None }
    }

    /// Selects device 0 of the enumerated `gpus`; fails, changing nothing,
    /// exactly when the list is empty. Returns the index chosen.
    pub fn select_default_gpu(&mut self, gpus: &Vec<G>) -> (r: Result<usize, SelectError>)
        ensures
            gpus@.len() == 0 <==> r is Err,
            r is Err ==> *final(self) == *old(self),
            r is Ok ==> r->Ok_0 == 0 && final(self).gpu_spec() == Some(gpus@[0]),
            final(self).instance_spec() == old(self).instance_spec(),
            final(self).surface_spec() == old(self).surface_spec(),
            final(self).surface_api_spec() == old(self).surface_api_spec(),
    {
        if gpus.len() == 0 {
            return Err(SelectError::NoDevice);
        }
        self.gpu = Some(gpus[0]);
        Ok(0)
    }

    /// Selects device `id` of the enumerated `gpus`, or device 0 when `id` is
    /// out of range; fails, changing nothing, exactly when the list is empty.
    /// Returns the index chosen.
    pub fn select_gpu(&mut self, id: usize, gpus: &Vec<G>) -> (r: Result<usize, SelectError>)
        ensures
            gpus@.len() == 0 <==> r is Err,
            r is Err ==> *final(self) == *old(self),
            r is Ok ==> r->Ok_0 == chosen_gpu_index(id as int, gpus@.len() as int)
                && final(self).gpu_spec() == Some(gpus@[r->Ok_0 as int]),
            final(self).instance_spec() == old(self).instance_spec(),
            final(self).surface_spec() == old(self).surface_spec(),
            final(self).surface_api_spec() == old(self).surface_api_spec(),
    {
        if gpus.len() == 0 {
            return Err(SelectError::NoDevice);
        }
        let index: usize = if id >= gpus.len() { 0 } else { id };
        self.gpu = Some(gpus[index]);
        Ok(index)
    }

    /// Stores a newly created surface together with the capability that
    /// destroys it.
    pub fn attach_surface(&mut self, surface: S, surface_api: A)
        ensures
            final(self).wf(),
            final(self).surface_spec() == Some(surface),
            final(self).surface_api_spec() == Some(surface_api),
            final(self).instance_spec() == old(self).instance_spec(),
            final(self).gpu_spec() == old(self).gpu_spec(),
    {
        self.surface = Some(surface);
        self.surface_api = Some(surface_api);
    }

    pub fn get_surface(&self) -> (r: Option<S>)
        ensures
            r == self.surface_spec(),
    {
        self.surface
    }

    pub fn get_instance(&self) -> (r: &I)
        ensures
            *r == self.instance_spec(),
    {
        &self.instance
    }

    pub fn get_gpu(&self) -> (r: Option<G>)
        ensures
            r == self.gpu_spec(),
    {
        self.gpu
    }

    pub fn get_surface_api(&self) -> (r: Option<&A>)
        ensures
            r is Some <==> self.surface_api_spec() is Some,
            r is Some ==> *r->Some_0 == self.surface_api_spec()->Some_0,
    {
        match &self.surface_api {
            Some(a) => Some(a),
            None => None,
        }
    }

    /// The driver calls that release this context, in order: the surface
    /// first when it and its capability are held, then always the instance.
    pub fn teardown_steps(&self) -> (r: Vec<TeardownStep>)
        ensures
            r@ == if self.surface_spec() is Some && self.surface_api_spec() is Some {
                seq![TeardownStep::DestroySurface, TeardownStep::DestroyInstance]
            } else {
                seq![TeardownStep::DestroyInstance]
            },
            r@.last() == TeardownStep::DestroyInstance,
            forall|i: int, j: int|
                0 <= i < j < r@.len() ==> !(r@[i] == TeardownStep::DestroyInstance && r@[j] == TeardownStep::DestroySurface),
            self.wf() && self.surface_spec() is Some ==> r@[0] == TeardownStep::DestroySurface,
    {
        let mut steps: Vec<TeardownStep> = Vec::new();
        if self.surface.is_some() && self.surface_api.is_some() {
            steps.push(TeardownStep::DestroySurface);
        }
        steps.push(TeardownStep::DestroyInstance);
        assert(steps@ =~= (if self.surface_spec() is Some && self.surface_api_spec() is Some {
            seq![TeardownStep::DestroySurface, TeardownStep::DestroyInstance]
        } else {
            seq![TeardownStep::DestroyInstance]
        }));
        steps
    }
}

/// The bytes of a fixed-size, NUL-padded name buffer before its first zero
/// byte (the whole buffer when it holds none).
pub open spec fn before_nul(b: Seq<u8>) -> Seq<u8>
    decreases b.len(),
{
    if b.len() == 0 {
        b
    } else if b[0] == 0 {
        Seq::empty()
    } else {
        seq![b[0]].add(before_nul(b.drop_first()))
    }
}

/// The text that a byte sequence encodes as UTF-8, or `None` when it is not
/// valid UTF-8.
pub uninterp spec fn utf8_text(b: Seq<u8>) -> Option<Seq<char>>;

/// Relies on String::from_utf8: it succeeds exactly when the bytes are valid
/// UTF-8, and then holds the text they encode.
#[verifier::external_body]
fn decode_utf8(b: Vec<u8>) -> (r: Option<String>)
    ensures
        r is Some ==> utf8_text(b@) == Some(r->Some_0@),
        r is None ==> utf8_text(b@) is None,
{
    String::from_utf8(b).ok()
}

/// Decodes a NUL-padded name buffer (a device name) into text: the bytes
/// before the first zero byte, read as UTF-8. `None` when they are not
/// valid UTF-8.
pub fn read_c_string_fixed(buf: &[u8]) -> (r: Option<String>)
    ensures
        r is Some <==> utf8_text(before_nul(buf@)) is Some,
        r is Some ==> utf8_text(before_nul(buf@)) == Some(r->Some_0@),
{
    let mut bytes: Vec<u8> = Vec::new();
    let mut i: usize = 0;
    assert(buf@.subrange(0, buf@.len() as int) =~= buf@);
    assert(bytes@ + before_nul(buf@) =~= before_nul(buf@));
    while i < buf.len() && buf[i] != 0
        invariant
            i <= buf@.len(),
            forall|k: int| 0 <= k < i ==> buf@[k] != 0,
            before_nul(buf@) == bytes@ + before_nul(buf@.subrange(i as int, buf@.len() as int)),
        decreases buf.len() - i,
    {
        let ghost rest = buf@.subrange(i as int, buf@.len() as int);
        assert(rest.drop_first() =~= buf@.subrange(i + 1, buf@.len() as int));
        assert(before_nul(rest) == seq![buf@[i as int]] + before_nul(rest.drop_first()));
        let ghost prev = bytes@;
        bytes.push(buf[i]);
        assert(bytes@ + before_nul(rest.drop_first()) =~= prev + (seq![buf@[i as int]] + before_nul(rest.drop_first())));
        i += 1;
    }
    assert(before_nul(buf@.subrange(i as int, buf@.len() as int)) =~= Seq::<u8>::empty());
    assert(bytes@ =~= before_nul(buf@));
    decode_utf8(bytes)
}

} // verus!
