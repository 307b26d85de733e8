//! Tagging of UI callback identifiers with the frame generation.
//!
//! A callback id is a `usize` whose top `GEN_BITS` bits hold the low bits of
//! the frame generation and whose remaining bits hold the index of the
//! callback in the frame's list.
use vstd::prelude::*;

verus! {

/// Number of bits of the generation stored in a callback id.
pub const GEN_BITS: u32 = 8;

/// Number of bits left for the callback index.
pub open spec fn gen_id_bits() -> u32 {
    (usize::BITS - 8) as u32
}

/// Largest callback index that can be tagged.
pub open spec fn gen_id_mask() -> usize {
    ((1usize << gen_id_bits()) - 1) as usize
}

/// The generation tag kept in an id: the low `GEN_BITS` bits of `gen`.
pub open spec fn gen_tag(gen: usize) -> usize {
    gen & 0xff
}

/// The id produced by tagging index `id` with generation `gen`.
pub open spec fn spec_merge_generation(id: usize, gen: usize) -> usize {
    (gen << gen_id_bits()) | id
}

/// The outcome of reading back an id tagged for generation `gen`.
pub open spec fn spec_remove_generation(id: usize, gen: usize) -> Option<usize> {
    if (id >> gen_id_bits()) != gen_tag(gen) {
        None
    } else {
        Some(id & gen_id_mask())
    }
}

fn id_bits() -> (r: u32)
    ensures
        r == gen_id_bits(),
{
    usize::BITS - GEN_BITS
}

fn id_mask() -> (r: usize)
    ensures
        r == gen_id_mask(),
{
    let s = id_bits();
    assert(s < usize::BITS) by (bit_vector)
        requires
            s == (usize::BITS - 8) as u32,
    ;
    assert((1usize << s) >= 1) by (bit_vector)
        requires
            s < usize::BITS,
    ;
    (1usize << s) - 1
}

/// Tags the callback index `id` with the generation `gen`.
///
/// The index must fit in the bits left after the tag.
pub fn merge_generation(id: usize, gen: usize) -> (r: usize)
    requires
        id <= gen_id_mask(),
    ensures
        r == spec_merge_generation(id, gen),
{
    let s = id_bits();
    assert(s < usize::BITS) by (bit_vector)
        requires
            s == (usize::BITS - 8) as u32,
    ;
    (gen << s) | id
}

/// Reads back the callback index of `id` if it was tagged with generation
/// `gen`, or `None` for an id of another generation.
pub fn remove_generation(id: usize, gen: usize) -> (r: Option<usize>)
    ensures
        r == spec_remove_generation(id, gen),
{
    let s = id_bits();
    assert(s < usize::BITS) by (bit_vector)
        requires
            s == (usize::BITS - 8) as u32,
    ;
    if (id >> s) != (gen & 0xff) {
        None
    } else {
        Some(id & id_mask())
    }
}

/// An index tagged with a generation is read back unchanged for that same
/// generation.
pub proof fn lemma_generation_round_trip(id: usize, gen: usize)
    requires
        id <= gen_id_mask(),
    ensures
        spec_remove_generation(spec_merge_generation(id, gen), gen) == Some(id),
{
    let s = gen_id_bits();
    assert((((gen << s) | id) >> s) == (gen & 0xff) && (((gen << s) | id) & (((1usize << s) - 1) as usize)) == id)
        by (bit_vector)
        requires
            s == (usize::BITS - 8) as u32,
            id <= ((1usize << s) - 1) as usize,
    ;
}

/// An id tagged for one generation is refused by any generation with
/// another tag.
pub proof fn lemma_generation_stale(id: usize, gen: usize, other: usize)
    requires
        id <= gen_id_mask(),
        gen_tag(gen) != gen_tag(other),
    ensures
        spec_remove_generation(spec_merge_generation(id, gen), other) is None,
{
    let s = gen_id_bits();
    assert((((gen << s) | id) >> s) == (gen & 0xff)) by (bit_vector)
        requires
            s == (usize::BITS - 8) as u32,
            id <= ((1usize << s) - 1) as usize,
    ;
}

/// The callbacks registered while one frame is built, with the frame's
/// generation: ids handed out carry its tag.
pub struct CallbackList<F> {
    generation: usize,
    callbacks: Vec<F>,
}

impl<F> View for CallbackList<F> {
    type V = (usize, Seq<F>);

    closed spec fn view(&self) -> (usize, Seq<F>) {
        (self.generation, self.callbacks@)
    }
}

impl<F> CallbackList<F> {
    /// An empty list for the frame of generation `generation`.
    pub fn new(generation: usize) -> (r: CallbackList<F>)
        ensures
            r@ == (generation, Seq::<F>::empty()),
    {
        CallbackList { generation, callbacks: Vec::new() }
    }

    /// The generation of the frame.
    pub fn generation(&self) -> (r: usize)
        ensures
            r == self@.0,
    {
        self.generation
    }

    /// Registers `cb` and returns its id: its index tagged with the frame's
    /// generation. There must be room for one more index.
    pub fn push_callback(&mut self, cb: F) -> (id: usize)
        requires
            old(self)@.1.len() <= gen_id_mask(),
        ensures
            id == spec_merge_generation(old(self)@.1.len() as usize, old(self)@.0),
            final(self)@ == (old(self)@.0, old(self)@.1.push(cb)),
    {
        let id = self.callbacks.len();
        self.callbacks.push(cb);
        merge_generation(id, self.generation)
    }

    /// The callback with id `id`, or `None` for an id of another
    /// generation. An id of this generation must be one handed out.
    pub fn callback(&self, id: usize) -> (r: Option<&F>)
        requires
            spec_remove_generation(id, self@.0) matches Some(i) ==> i < self@.1.len(),
        ensures
            r == match spec_remove_generation(id, self@.0) {
                Some(i) => Some(&self@.1[i as int]),
                None => None,
            },
    {
        match remove_generation(id, self.generation) {
            Some(i) => Some(&self.callbacks[i]),
            None => None,
        }
    }
}

/// A callback just registered is found under the id it was given, for as
/// long as the frame's generation stays.
pub proof fn lemma_registered_callback_found<F>(gen: usize, callbacks: Seq<F>, cb: F)
    requires
        callbacks.len() <= gen_id_mask(),
    ensures
        spec_remove_generation(spec_merge_generation(callbacks.len() as usize, gen), gen) == Some(
            callbacks.len() as usize,
        ),
        callbacks.push(cb)[callbacks.len() as int] == cb,
{
    lemma_generation_round_trip(callbacks.len() as usize, gen);
}

/// The generation after `gen`: it goes up by one, wrapping around. It goes
/// up when a frame starts and again when it ends.
pub open spec fn spec_next_generation(gen: usize) -> usize {
    if gen == usize::MAX {
        0
    } else {
        (gen + 1) as usize
    }
}

/// The generation after `gen`, as [`spec_next_generation`] says.
pub fn next_generation(gen: usize) -> (r: usize)
    ensures
        r == spec_next_generation(gen),
{
    gen.wrapping_add(1)
}

proof fn lemma_tag_is_low_byte(g: usize)
    ensures
        gen_tag(g) == g % 256,
{
    assert(g & 0xff == g % 256) by (bit_vector);
}

/// An id handed out while a frame was built is refused once the frame has
/// ended and the next one has started.
pub proof fn lemma_stale_after_frame(id: usize, gen: usize)
    requires
        id <= gen_id_mask(),
    ensures
        spec_remove_generation(
            spec_merge_generation(id, gen),
            spec_next_generation(spec_next_generation(gen)),
        ) is None,
{
    let later = spec_next_generation(spec_next_generation(gen));
    lemma_tag_is_low_byte(gen);
    lemma_tag_is_low_byte(later);
    assert(usize::MAX % 256 == 255);
    assert(gen_tag(gen) != gen_tag(later));
    lemma_generation_stale(id, gen, later);
}

} // verus!
