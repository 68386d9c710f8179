//! What the engine knows of the program under the debugger: the kinds of its
//! opcodes, the lengths of its bytecode functions, and where each opcode
//! comes from in the source.

use crate::location::{DebugLocation, OpcodeLocation};
use vstd::prelude::*;
use vstd::utf8::encode_utf8;

verus! {

/// A circuit opcode, as far as stepping depends on it.
#[derive(Clone, Copy, Debug, PartialEq, Eq, Structural)]
pub enum OpcodeKind {
    /// A call of the bytecode function `id`.
    BrilligCall { id: u32 },
    /// A call of the circuit `id`.
    Call { id: u32 },
    /// Any other opcode.
    Other,
}

/// The shape of a program: the opcodes of each circuit, and the number of
/// opcodes of each bytecode function.
#[derive(Debug)]
pub struct ProgramShape {
    pub circuits: Vec<Vec<OpcodeKind>>,
    pub brillig_lengths: Vec<usize>,
}

/// The model of a program's shape.
pub struct ShapeView {
    pub circuits: Seq<Seq<OpcodeKind>>,
    pub brillig_lengths: Seq<usize>,
}

impl View for ProgramShape {
    type V = ShapeView;

    open spec fn view(&self) -> ShapeView {
        ShapeView {
            circuits: Seq::new(self.circuits.len() as nat, |i: int| self.circuits[i]@),
            brillig_lengths: self.brillig_lengths@,
        }
    }
}

/// Whether a location exists in a program of this shape: its circuit and its
/// circuit opcode exist, and for a bytecode position the opcode calls a
/// bytecode function that has an opcode at that index.
pub open spec fn spec_is_valid_location(shape: ShapeView, l: DebugLocation) -> bool {
    &&& l.circuit_id < shape.circuits.len()
    &&& match l.opcode_location {
        OpcodeLocation::Acir(i) => i < shape.circuits[l.circuit_id as int].len(),
        OpcodeLocation::Brillig { acir_index, brillig_index } => {
            &&& acir_index < shape.circuits[l.circuit_id as int].len()
            &&& shape.circuits[l.circuit_id as int][acir_index as int] matches OpcodeKind::BrilligCall {
                id,
            }
            &&& id < shape.brillig_lengths.len()
            &&& brillig_index < shape.brillig_lengths[id as int]
        },
    }
}

impl ProgramShape {
    /// Whether `location` exists in the program.
    pub fn is_valid_debug_location(&self, location: &DebugLocation) -> (valid: bool)
        ensures
            valid == spec_is_valid_location(self@, *location),
    {
        if location.circuit_id as usize >= self.circuits.len() {
            return false;
        }
        let opcodes = &self.circuits[location.circuit_id as usize];
        match location.opcode_location {
            OpcodeLocation::Acir(i) => i < opcodes.len(),
            OpcodeLocation::Brillig { acir_index, brillig_index } => {
                if acir_index < opcodes.len() {
                    match opcodes[acir_index] {
                        OpcodeKind::BrilligCall { id } => {
                            (id as usize) < self.brillig_lengths.len() && brillig_index
                                < self.brillig_lengths[id as usize]
                        },
                        _ => false,
                    }
                } else {
                    false
                }
            },
        }
    }

    /// The number of opcodes of circuit `circuit_id`, zero where there is no such circuit.
    pub fn opcode_count(&self, circuit_id: u32) -> (n: usize)
        ensures
            n == if circuit_id < self@.circuits.len() {
                self@.circuits[circuit_id as int].len()
            } else {
                0
            },
    {
        if (circuit_id as usize) < self.circuits.len() {
            self.circuits[circuit_id as usize].len()
        } else {
            0
        }
    }

    /// The kind of the opcode at `index` of circuit `circuit_id`, if there is one.
    pub fn opcode_kind(&self, circuit_id: u32, index: usize) -> (kind: Option<OpcodeKind>)
        ensures
            kind == if circuit_id < self@.circuits.len() && index
                < self@.circuits[circuit_id as int].len() {
                Some(self@.circuits[circuit_id as int][index as int])
            } else {
                None
            },
    {
        if (circuit_id as usize) < self.circuits.len() && index
            < self.circuits[circuit_id as usize].len() {
            Some(self.circuits[circuit_id as usize][index])
        } else {
            None
        }
    }
}

/// A range of bytes of a source file.
#[derive(Clone, Copy, Debug, PartialEq, Eq, Hash, Structural)]
pub struct Span {
    pub start: u32,
    pub end: u32,
}

/// A place in the source: the file and the range of bytes.
#[derive(Clone, Copy, Debug, PartialEq, Eq, Hash, Structural)]
pub struct Location {
    pub span: Span,
    pub file: u32,
}

/// The source places of the opcodes of one circuit. An opcode that was
/// inlined through calls has one place per call.
#[derive(Debug)]
pub struct DebugInfo {
    pub locations: Vec<(OpcodeLocation, Vec<Location>)>,
}

/// A source file.
#[derive(Debug)]
pub struct DebugFile {
    pub file_id: u32,
    pub path: String,
    pub source: String,
}

/// The debug symbols of a program: the source places per circuit, and the files.
#[derive(Debug)]
pub struct DebugArtifact {
    pub debug_symbols: Vec<DebugInfo>,
    pub file_map: Vec<DebugFile>,
}

/// The position of the first entry for `l`, or the number of entries.
pub open spec fn location_entry(entries: Seq<(OpcodeLocation, Vec<Location>)>, l: OpcodeLocation) -> int
    decreases entries.len(),
{
    if entries.len() == 0 {
        0
    } else if entries[0].0 == l {
        0
    } else {
        1 + location_entry(entries.drop_first(), l)
    }
}

/// `location_entry` is in range, points at an entry for `l` if at any, and
/// no earlier entry is for `l`.
pub proof fn lemma_location_entry(entries: Seq<(OpcodeLocation, Vec<Location>)>, l: OpcodeLocation)
    ensures
        0 <= location_entry(entries, l) <= entries.len(),
        location_entry(entries, l) < entries.len() ==> entries[location_entry(entries, l)].0 == l,
        forall|k: int| 0 <= k < location_entry(entries, l) ==> (#[trigger] entries[k]).0 != l,
    decreases entries.len(),
{
    if entries.len() > 0 && entries[0].0 != l {
        lemma_location_entry(entries.drop_first(), l);
        assert forall|k: int| 0 <= k < location_entry(entries, l) implies (
        #[trigger] entries[k]).0 != l by {
            if k > 0 {
                assert(entries[k] == entries.drop_first()[k - 1]);
            }
        }
    }
}

impl DebugInfo {
    /// The source places of the opcode at `l`, where the circuit records any.
    pub open spec fn spec_opcode_location(&self, l: OpcodeLocation) -> Option<Seq<Location>> {
        let at = location_entry(self.locations@, l);
        if at < self.locations.len() {
            Some(self.locations[at].1@)
        } else {
            None
        }
    }

    /// The source places of the opcode at `location`, where the circuit records any.
    pub fn opcode_location(&self, location: &OpcodeLocation) -> (places: Option<&Vec<Location>>)
        ensures
            match places {
                Some(v) => self.spec_opcode_location(*location) == Some(v@),
                None => self.spec_opcode_location(*location).is_none(),
            },
    {
        proof {
            lemma_location_entry(self.locations@, *location);
        }
        let mut i: usize = 0;
        while i < self.locations.len()
            invariant
                0 <= i <= self.locations.len(),
                forall|k: int| 0 <= k < i ==> (#[trigger] self.locations[k]).0 != *location,
                0 <= location_entry(self.locations@, *location) <= self.locations.len(),
                location_entry(self.locations@, *location) < self.locations.len()
                    ==> self.locations[location_entry(self.locations@, *location)].0 == *location,
                forall|k: int|
                    0 <= k < location_entry(self.locations@, *location) ==> (
                    #[trigger] self.locations[k]).0 != *location,
            decreases self.locations.len() - i,
        {
            if self.locations[i].0 == *location {
                return Some(&self.locations[i].1);
            }
            i += 1;
        }
        None
    }
}

impl DebugArtifact {
    /// The source places of the opcode at `l`: those that the symbols of its
    /// circuit record, `None` where there is no such circuit or no record.
    pub open spec fn spec_source_locations(&self, l: DebugLocation) -> Option<Seq<Location>> {
        if l.circuit_id < self.debug_symbols.len() {
            self.debug_symbols[l.circuit_id as int].spec_opcode_location(l.opcode_location)
        } else {
            None
        }
    }

    /// The source places of the opcode at `location`.
    pub fn source_locations(&self, location: &DebugLocation) -> (places: Option<&Vec<Location>>)
        ensures
            match places {
                Some(v) => self.spec_source_locations(*location) == Some(v@),
                None => self.spec_source_locations(*location).is_none(),
            },
    {
        if (location.circuit_id as usize) < self.debug_symbols.len() {
            self.debug_symbols[location.circuit_id as usize].opcode_location(
                &location.opcode_location,
            )
        } else {
            None
        }
    }

    /// The file with id `file_id`, if the artifact has it: the first of that id.
    pub fn file(&self, file_id: u32) -> (found: Option<&DebugFile>)
        ensures
            match found {
                Some(f) => f.file_id == file_id && exists|k: int|
                    0 <= k < self.file_map.len() && self.file_map[k] == *f && forall|j: int|
                        0 <= j < k ==> (#[trigger] self.file_map[j]).file_id != file_id,
                None => forall|k: int|
                    0 <= k < self.file_map.len() ==> (#[trigger] self.file_map[k]).file_id
                        != file_id,
            },
    {
        let mut i: usize = 0;
        while i < self.file_map.len()
            invariant
                0 <= i <= self.file_map.len(),
                forall|k: int| 0 <= k < i ==> (#[trigger] self.file_map[k]).file_id != file_id,
            decreases self.file_map.len() - i,
        {
            if self.file_map[i].file_id == file_id {
                return Some(&self.file_map[i]);
            }
            i += 1;
        }
        None
    }
}

/// The number of line feeds among the first `n` bytes of `source`.
pub open spec fn line_feeds(source: Seq<u8>, n: nat) -> nat
    decreases n,
{
    if n == 0 || n > source.len() {
        0
    } else {
        line_feeds(source, (n - 1) as nat) + if source[n - 1] == 10 {
            1nat
        } else {
            0nat
        }
    }
}

/// The number of the line that holds the byte at `offset`, counted from one;
/// an offset behind the end counts as the end.
pub open spec fn line_number(source: Seq<u8>, offset: nat) -> nat {
    1 + line_feeds(
        source,
        if offset > source.len() {
            source.len()
        } else {
            offset
        },
    )
}

/// The position of the first file with id `file_id`, or the number of files.
pub open spec fn file_position(files: Seq<DebugFile>, file_id: u32) -> int
    decreases files.len(),
{
    if files.len() == 0 {
        0
    } else if files[0].file_id == file_id {
        0
    } else {
        1 + file_position(files.drop_first(), file_id)
    }
}

/// `file_position` is in range, points at a file of that id if at any, and
/// no earlier file has the id.
pub proof fn lemma_file_position(files: Seq<DebugFile>, file_id: u32)
    ensures
        0 <= file_position(files, file_id) <= files.len(),
        file_position(files, file_id) < files.len() ==> files[file_position(
            files,
            file_id,
        )].file_id == file_id,
        forall|k: int| 0 <= k < file_position(files, file_id) ==> (#[trigger] files[k]).file_id
            != file_id,
    decreases files.len(),
{
    if files.len() > 0 && files[0].file_id != file_id {
        lemma_file_position(files.drop_first(), file_id);
        assert forall|k: int| 0 <= k < file_position(files, file_id) implies (
        #[trigger] files[k]).file_id != file_id by {
            if k > 0 {
                assert(files[k] == files.drop_first()[k - 1]);
            }
        }
    }
}

impl DebugArtifact {
    /// The number of the line at which a source place begins, or `None`
    /// where the artifact does not have the file.
    pub open spec fn spec_location_line_number(&self, place: Location) -> Option<nat> {
        let at = file_position(self.file_map@, place.file);
        if at < self.file_map.len() {
            Some(line_number(encode_utf8(self.file_map[at].source@), place.span.start as nat))
        } else {
            None
        }
    }

    /// The number of the line at which a source place begins, counted from one.
    pub fn location_line_number(&self, place: &Location) -> (line: Option<u64>)
        ensures
            match line {
                Some(n) => self.spec_location_line_number(*place) == Some(n as nat),
                None => self.spec_location_line_number(*place).is_none(),
            },
    {
        proof {
            lemma_file_position(self.file_map@, place.file);
        }
        let mut i: usize = 0;
        while i < self.file_map.len()
            invariant
                0 <= i <= self.file_map.len(),
                forall|k: int| 0 <= k < i ==> (#[trigger] self.file_map[k]).file_id != place.file,
                0 <= file_position(self.file_map@, place.file) <= self.file_map.len(),
                file_position(self.file_map@, place.file) < self.file_map.len()
                    ==> self.file_map[file_position(self.file_map@, place.file)].file_id
                    == place.file,
                forall|k: int|
                    0 <= k < file_position(self.file_map@, place.file) ==> (
                    #[trigger] self.file_map[k]).file_id != place.file,
            decreases self.file_map.len() - i,
        {
            if self.file_map[i].file_id == place.file {
                let bytes = self.file_map[i].source.as_str().as_bytes();
                let stop = if (place.span.start as usize) > bytes.len() {
                    bytes.len()
                } else {
                    place.span.start as usize
                };
                let mut feeds: usize = 0;
                let mut k: usize = 0;
                while k < stop
                    invariant
                        0 <= k <= stop <= bytes.len(),
                        feeds == line_feeds(bytes@, k as nat),
                        feeds <= k,
                        stop <= u32::MAX,
                    decreases stop - k,
                {
                    if bytes[k] == 10 {
                        feeds += 1;
                    }
                    k += 1;
                }
                return Some(feeds as u64 + 1);
            }
            i += 1;
        }
        None
    }
}

} // verus!
