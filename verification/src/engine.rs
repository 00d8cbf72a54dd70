//! The document engine: parsing, metadata assembly and generation are done
//! by the `ttml_processor` and `lyrics_helper_core` crates behind trusted
//! wrappers; the ordering of lines and the sequencing around the calls are
//! verified here. Parsing, the store operations and generation depend on
//! their arguments alone, so their results are named and the wrappers'
//! contracts pin each outcome to its name.

use vstd::prelude::*;
use std::collections::HashMap;
use crate::order::{filt, sort_pairs, sorted_by_key};
use crate::text::{chars_of, find_long_digit_run, has_long_digit_run};

verus! {

#[verifier::external_type_specification]
#[verifier::external_body]
pub struct ExLyricLine(lyrics_helper_core::LyricLine);

#[verifier::external_type_specification]
#[verifier::external_body]
pub struct ExMetadataStore(lyrics_helper_core::MetadataStore);

#[verifier::external_type_specification]
#[verifier::external_body]
pub struct ExAgentStore(lyrics_helper_core::AgentStore);

/// Does the engine parse this text? Parsing depends on the text alone.
pub uninterp spec fn parse_ok(text: Seq<char>) -> bool;

/// The lines the engine parses out of this text.
pub uninterp spec fn parsed_lines(text: Seq<char>) -> Seq<lyrics_helper_core::LyricLine>;

/// The raw metadata entries the engine parses out of this text, as a map
/// from tag name to the values it carried.
pub uninterp spec fn parsed_raw_metadata(text: Seq<char>) -> Map<Seq<char>, Seq<Seq<char>>>;

/// The singer information the engine parses out of this text.
pub uninterp spec fn parsed_agents(text: Seq<char>) -> lyrics_helper_core::AgentStore;

/// The non-fatal warnings the engine reports for this text.
pub uninterp spec fn parsed_warnings(text: Seq<char>) -> Seq<Seq<char>>;

/// The debug form of the parse error for text the engine rejects.
pub uninterp spec fn parse_err(text: Seq<char>) -> Seq<char>;

/// The start time a line reports, in milliseconds.
pub uninterp spec fn start_of(l: lyrics_helper_core::LyricLine) -> u64;

/// A store with nothing in it.
pub open spec fn empty_entries() -> Map<Seq<char>, Set<Seq<char>>> {
    Map::empty()
}

/// What a metadata store holds: for each canonical key, the set of values
/// under it. A set, not a sequence: the store is loaded by walking a hash
/// map, so only the collection of values per key is a function of the input.
pub uninterp spec fn store_entries(store: lyrics_helper_core::MetadataStore) -> Map<
    Seq<char>,
    Set<Seq<char>>,
>;

/// The entries after loading raw metadata into a store holding `prev`.
pub uninterp spec fn loaded_entries(
    prev: Map<Seq<char>, Set<Seq<char>>>,
    raw: Map<Seq<char>, Seq<Seq<char>>>,
) -> Map<Seq<char>, Set<Seq<char>>>;

/// The entries after deduplication of a store holding `prev`.
pub uninterp spec fn deduped_entries(prev: Map<Seq<char>, Set<Seq<char>>>) -> Map<
    Seq<char>,
    Set<Seq<char>>,
>;

/// What generation returns for these exact lines, store, agents and flags.
/// The generator reads nothing but its arguments, so its result is a
/// function of them.
pub uninterp spec fn generated_of(
    lines: Seq<lyrics_helper_core::LyricLine>,
    store: lyrics_helper_core::MetadataStore,
    agents: lyrics_helper_core::AgentStore,
    line_mode: bool,
    format: bool,
) -> Result<Seq<char>, Seq<char>>;

/// What parsing a document yields: the timed lines, the raw metadata
/// entries, the singer information, and non-fatal warnings.
pub struct ParsedParts {
    pub lines: Vec<lyrics_helper_core::LyricLine>,
    pub raw_metadata: HashMap<String, Vec<String>>,
    pub agents: lyrics_helper_core::AgentStore,
    pub warnings: Vec<String>,
}

/// Relies on ttml_processor::parse_ttml with default parsing options: it
/// turns document text into lines, raw metadata, agents and warnings, or a
/// parse error, whose debug form is returned as the error text. It reads
/// nothing but the text, so each piece of the outcome bears its name.
/// The parser scales parsed seconds and hours to milliseconds with
/// unchecked multiplications, which overflow only on integers of a
/// trillion and more; the precondition rules every such text out, since
/// an integer that large needs thirteen consecutive digits.
#[verifier::external_body]
fn parse_call(text: &str) -> (r: Result<ParsedParts, String>)
    requires
        !has_long_digit_run(text@),
    ensures
        match r {
            Ok(p) => {
                &&& parse_ok(text@)
                &&& p.lines@ == parsed_lines(text@)
                &&& p.raw_metadata.deep_view() == parsed_raw_metadata(text@)
                &&& p.agents == parsed_agents(text@)
                &&& p.warnings.deep_view() == parsed_warnings(text@)
            },
            Err(e) => !parse_ok(text@) && e@ == parse_err(text@),
        },
{
    match ttml_processor::parse_ttml(text, &lyrics_helper_core::TtmlParsingOptions::default()) {
        Ok(d) => Ok(
            ParsedParts {
                lines: d.lines,
                raw_metadata: d.raw_metadata,
                agents: d.agents,
                warnings: d.warnings,
            },
        ),
        Err(e) => Err(format!("{e:?}")),
    }
}

/// Relies on the public `start_ms` field of lyrics_helper_core::LyricLine:
/// the line's start time in milliseconds.
#[verifier::external_body]
fn line_start_ms(l: &lyrics_helper_core::LyricLine) -> (r: u64)
    ensures
        r == start_of(*l),
{
    l.start_ms
}

/// Relies on lyrics_helper_core::MetadataStore::new: an empty store.
#[verifier::external_body]
fn new_metadata_store() -> (r: lyrics_helper_core::MetadataStore)
    ensures
        store_entries(r) == empty_entries(),
{
    lyrics_helper_core::MetadataStore::new()
}

/// Relies on lyrics_helper_core::MetadataStore::load_from_raw: each raw
/// entry's values are trimmed and added under its canonical key, empty keys
/// and values dropped; as sets per key the outcome is a function of the
/// store's prior entries and the raw map.
#[verifier::external_body]
fn load_raw_metadata(
    store: &mut lyrics_helper_core::MetadataStore,
    raw: &HashMap<String, Vec<String>>,
)
    ensures
        store_entries(*final(store)) == loaded_entries(store_entries(*old(store)), raw.deep_view()),
{
    store.load_from_raw(raw);
}

/// Relies on lyrics_helper_core::MetadataStore::deduplicate_values: values
/// under each key are trimmed, empties dropped and repeats removed; as sets
/// per key the outcome is a function of the prior entries.
#[verifier::external_body]
fn dedup_metadata(store: &mut lyrics_helper_core::MetadataStore)
    ensures
        store_entries(*final(store)) == deduped_entries(store_entries(*old(store))),
{
    store.deduplicate_values();
}

/// Relies on ttml_processor::generate_ttml: it renders the lines and
/// metadata as document text, timed by line or by word as asked, compact or
/// human-formatted as asked, and depends on nothing but its arguments, so
/// the outcome bears its name. A generation error's debug form is returned
/// as the error text.
#[verifier::external_body]
fn generate_call(
    lines: &Vec<lyrics_helper_core::LyricLine>,
    store: &lyrics_helper_core::MetadataStore,
    agents: &lyrics_helper_core::AgentStore,
    line_mode: bool,
    format: bool,
) -> (r: Result<String, String>)
    ensures
        match r {
            Ok(s) => generated_of(lines@, *store, *agents, line_mode, format) == Ok::<
                Seq<char>,
                Seq<char>,
            >(s@),
            Err(e) => generated_of(lines@, *store, *agents, line_mode, format) == Err::<
                Seq<char>,
                Seq<char>,
            >(e@),
        },
{
    let options = lyrics_helper_core::TtmlGenerationOptions {
        timing_mode: if line_mode {
            lyrics_helper_core::TtmlTimingMode::Line
        } else {
            lyrics_helper_core::TtmlTimingMode::Word
        },
        format,
        ..Default::default()
    };
    match ttml_processor::generate_ttml(lines, store, agents, &options) {
        Ok(s) => Ok(s),
        Err(e) => Err(format!("{e:?}")),
    }
}

/// Can the engine handle this text? False when it holds a run of thirteen
/// or more decimal digits: timestamps in such a text could overflow the
/// engine's millisecond arithmetic. A driver tests this before asking for
/// a parse; a text that fails it is an unexpected error, not a decline.
pub fn within_engine_limits(text: &str) -> (r: bool)
    ensures
        r == !has_long_digit_run(text@),
{
    let chars = chars_of(text);
    !find_long_digit_run(&chars)
}

/// Parse document text with the engine. Success, and every piece of the
/// outcome, is pinned to the named parse results of the text. The
/// precondition is the machine limit that `within_engine_limits` tests.
pub fn parse_document(text: &str) -> (r: Result<ParsedParts, String>)
    requires
        !has_long_digit_run(text@),
    ensures
        match r {
            Ok(p) => {
                &&& parse_ok(text@)
                &&& p.lines@ == parsed_lines(text@)
                &&& p.raw_metadata.deep_view() == parsed_raw_metadata(text@)
                &&& p.agents == parsed_agents(text@)
                &&& p.warnings.deep_view() == parsed_warnings(text@)
            },
            Err(e) => !parse_ok(text@) && e@ == parse_err(text@),
        },
{
    parse_call(text)
}

/// Pair every line with its start time, in order.
#[verifier::loop_isolation(false)]
pub fn keyed_lines(lines: Vec<lyrics_helper_core::LyricLine>) -> (r: Vec<
    (u64, lyrics_helper_core::LyricLine),
>)
    ensures
        r@.len() == lines@.len(),
        forall|i: int| 0 <= i < r@.len() ==> r@[i].1 == lines@[i] && r@[i].0 == start_of(lines@[i]),
{
    let ghost orig = lines@;
    let mut rest = lines;
    let mut out: Vec<(u64, lyrics_helper_core::LyricLine)> = Vec::new();
    while rest.len() > 0
        invariant
            out@.len() + rest@.len() == orig.len(),
            forall|i: int| 0 <= i < rest@.len() ==> rest@[i] == orig[out@.len() + i],
            forall|i: int|
                0 <= i < out@.len() ==> out@[i].1 == orig[i] && out@[i].0 == start_of(orig[i]),
        decreases rest@.len(),
    {
        let l = rest.remove(0);
        let k = line_start_ms(&l);
        out.push((k, l));
    }
    out
}

/// Drop the keys again, keeping the order.
#[verifier::loop_isolation(false)]
pub fn unkeyed_lines(pairs: Vec<(u64, lyrics_helper_core::LyricLine)>) -> (r: Vec<
    lyrics_helper_core::LyricLine,
>)
    ensures
        r@.len() == pairs@.len(),
        forall|i: int| 0 <= i < r@.len() ==> r@[i] == pairs@[i].1,
{
    let ghost orig = pairs@;
    let mut rest = pairs;
    let mut out: Vec<lyrics_helper_core::LyricLine> = Vec::new();
    while rest.len() > 0
        invariant
            out@.len() + rest@.len() == orig.len(),
            forall|i: int| 0 <= i < rest@.len() ==> rest@[i] == orig[out@.len() + i],
            forall|i: int| 0 <= i < out@.len() ==> out@[i] == orig[i].1,
        decreases rest@.len(),
    {
        let p = rest.remove(0);
        out.push(p.1);
    }
    out
}

/// The pairs carry exactly the given lines, in order, each beside its
/// start time.
pub open spec fn is_keying_of(
    kv: Seq<(u64, lyrics_helper_core::LyricLine)>,
    lines: Seq<lyrics_helper_core::LyricLine>,
) -> bool {
    kv.len() == lines.len() && (forall|i: int|
        0 <= i < kv.len() ==> kv[i].1 == lines[i] && kv[i].0 == start_of(lines[i]))
}

/// A parsed document made ready for validation and generation: lines paired
/// with their start times and ordered, and the metadata store assembled and
/// deduplicated.
pub struct PreparedDocument {
    pub pairs: Vec<(u64, lyrics_helper_core::LyricLine)>,
    pub store: lyrics_helper_core::MetadataStore,
    pub agents: lyrics_helper_core::AgentStore,
    pub warnings: Vec<String>,
}

/// Normalize the parsed document: pair each line with its reported start
/// time, sort stably by it, and build the metadata store. The pairs are
/// nondecreasing by start time, each pair carries its line's own start
/// time, and they are exactly the parsed lines' pairs, equal start times
/// keeping their original relative order. The store is built once, from
/// exactly the parsed raw metadata, loaded into an empty store and then
/// deduplicated; warnings and agents pass through unchanged.
pub fn assemble_document(parts: ParsedParts) -> (r: PreparedDocument)
    ensures
        sorted_by_key(r.pairs@),
        r.pairs@.len() == parts.lines@.len(),
        forall|i: int|
            0 <= i < r.pairs@.len() ==> #[trigger] r.pairs@[i].0 == start_of(r.pairs@[i].1),
        exists|kv: Seq<(u64, lyrics_helper_core::LyricLine)>| #[trigger]
            is_keying_of(kv, parts.lines@) && (forall|k: u64| #[trigger] filt(r.pairs@, k) == filt(
                kv,
                k,
            )),
        store_entries(r.store) == deduped_entries(
            loaded_entries(empty_entries(), parts.raw_metadata.deep_view()),
        ),
        r.agents == parts.agents,
        r.warnings == parts.warnings,
{
    let ParsedParts { lines, raw_metadata, agents, warnings } = parts;
    let ghost orig_lines = lines@;
    let keyed = keyed_lines(lines);
    let ghost kv = keyed@;
    let pairs = sort_pairs(keyed);
    let mut store = new_metadata_store();
    load_raw_metadata(&mut store, &raw_metadata);
    dedup_metadata(&mut store);
    let r = PreparedDocument { pairs, store, agents, warnings };
    proof {
        assert(is_keying_of(kv, orig_lines) && (forall|k: u64| #[trigger] filt(r.pairs@, k)
            == filt(kv, k)));
        assert forall|i: int|
            0 <= i < r.pairs@.len() implies #[trigger] r.pairs@[i].0 == start_of(
            r.pairs@[i].1,
        ) by {
            assert(kv.contains(r.pairs@[i]));
            let j = choose|j: int| 0 <= j < kv.len() && kv[j] == r.pairs@[i];
            assert(kv[j].1 == orig_lines[j] && kv[j].0 == start_of(orig_lines[j]));
        }
    }
    r
}

/// Generate the two artifact variants: one compact, one human-formatted.
/// Both calls read the same lines, the same metadata store and the same
/// agents, with the same timing mode; only the format flag differs, so the
/// two variants are the named generation results of one model, and running
/// again on the same inputs reproduces them exactly. Success is owed
/// whenever the engine generates both variants; either failure aborts with
/// that error text.
pub fn generate_both(
    lines: &Vec<lyrics_helper_core::LyricLine>,
    store: &lyrics_helper_core::MetadataStore,
    agents: &lyrics_helper_core::AgentStore,
    line_mode: bool,
) -> (r: Result<(String, String), String>)
    ensures
        match r {
            Ok(p) => generated_of(lines@, *store, *agents, line_mode, false) == Ok::<
                Seq<char>,
                Seq<char>,
            >(p.0@) && generated_of(lines@, *store, *agents, line_mode, true) == Ok::<
                Seq<char>,
                Seq<char>,
            >(p.1@),
            Err(e) => generated_of(lines@, *store, *agents, line_mode, false) == Err::<
                Seq<char>,
                Seq<char>,
            >(e@) || generated_of(lines@, *store, *agents, line_mode, true) == Err::<
                Seq<char>,
                Seq<char>,
            >(e@),
        },
        generated_of(lines@, *store, *agents, line_mode, false) is Ok && generated_of(
            lines@,
            *store,
            *agents,
            line_mode,
            true,
        ) is Ok ==> r is Ok,
{
    let compact = match generate_call(lines, store, agents, line_mode, false) {
        Ok(s) => s,
        Err(e) => {
            return Err(e);
        },
    };
    let formatted = match generate_call(lines, store, agents, line_mode, true) {
        Ok(s) => s,
        Err(e) => {
            return Err(e);
        },
    };
    Ok((compact, formatted))
}

} // verus!
