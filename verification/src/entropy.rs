use vstd::prelude::*;

verus! {

/// Mathematical view of an entropy source.
pub ghost enum EntropyV {
    /// The process-wide generator; nothing is known of the bytes it yields.
    System,
    /// A fixed byte sequence and a cursor that cycles through it.
    Fixed(Seq<u8>, int),
}

/// Supplies the byte the random instruction consumes. It is injected at
/// construction: a run that needs to be deterministic uses a fixed sequence,
/// a live run draws from the operating system's generator.
pub enum Entropy {
    /// Draw each byte from the thread-local generator.
    System,
    /// Yield the bytes of the vector in order, cycling; the cursor marks the
    /// next byte.
    Fixed(Vec<u8>, usize),
}

impl View for Entropy {
    type V = EntropyV;

    closed spec fn view(&self) -> EntropyV {
        match self {
            Entropy::System => EntropyV::System,
            Entropy::Fixed(s, c) => EntropyV::Fixed(s@, *c as int),
        }
    }
}

/// The cursor of a fixed source stays inside its sequence (and is zero when
/// the sequence is empty).
pub open spec fn entropy_wf(e: EntropyV) -> bool {
    match e {
        EntropyV::System => true,
        EntropyV::Fixed(s, c) => if s.len() == 0 {
            c == 0
        } else {
            0 <= c < s.len()
        },
    }
}

/// The byte a fixed source yields next; zero when its sequence is empty.
/// (The system source's bytes are outside the model.)
pub open spec fn entropy_byte(e: EntropyV) -> u8 {
    match e {
        EntropyV::System => 0,
        EntropyV::Fixed(s, c) => if s.len() == 0 {
            0
        } else {
            s[c]
        },
    }
}

/// The source after it yields one byte: a fixed source advances its cursor
/// cyclically; the system source's state lies outside the model.
pub open spec fn entropy_next(e: EntropyV) -> EntropyV {
    match e {
        EntropyV::System => EntropyV::System,
        EntropyV::Fixed(s, c) => EntropyV::Fixed(
            s,
            if c + 1 < s.len() {
                c + 1
            } else {
                0
            },
        ),
    }
}

/// Relies on rand::random: one draw from the thread-local generator.
/// Nothing can be promised of a random value.
pub assume_specification<T>[ rand::random::<T> ]() -> (r: T)
    where
        rand::distributions::Standard: rand::distributions::Distribution<T>,
;

impl Entropy {
    /// A source that yields `bytes` in order, cycling, starting at the first.
    pub fn fixed(bytes: Vec<u8>) -> (e: Entropy)
        ensures
            e@ == EntropyV::Fixed(bytes@, 0int),
            entropy_wf(e@),
    {
        Entropy::Fixed(bytes, 0)
    }

    /// A source that draws from the operating system's generator.
    pub fn system() -> (e: Entropy)
        ensures
            e@ == EntropyV::System,
            entropy_wf(e@),
    {
        Entropy::System
    }

    /// Yields the next byte and advances the source. A fixed source yields
    /// the byte under its cursor; what the system source yields is
    /// unconstrained.
    pub fn next_byte(&mut self) -> (b: u8)
        requires
            entropy_wf(old(self)@),
        ensures
            entropy_wf(final(self)@),
            final(self)@ == entropy_next(old(self)@),
            old(self)@ matches EntropyV::Fixed(..) ==> b == entropy_byte(old(self)@),
    {
        match self {
            Entropy::System => rand::random::<u8>(),
            Entropy::Fixed(bytes, cursor) => {
                if bytes.len() == 0 {
                    0u8
                } else {
                    let b = bytes[*cursor];
                    *cursor = if *cursor + 1 < bytes.len() {
                        *cursor + 1
                    } else {
                        0
                    };
                    b
                }
            },
        }
    }
}

} // verus!
