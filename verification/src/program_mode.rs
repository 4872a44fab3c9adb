//! The three operations as one value, and what running it gives.

use vstd::prelude::*;
use crate::backend::sequential::SequentialBackend;
use crate::backend::{answers_search, none_passes, numbered, passing, Backend};
use crate::settings::Settings;
use crate::util::{decimal, write_decimal};

verus! {

/// What a run is to compute.
#[derive(Debug)]
pub enum ProgramMode {
    /// How many numbers of the range pass the checksum.
    Count,
    /// Which numbers of the range pass the checksum.
    List,
    /// A number of the range that passes the checksum and has this digest.
    Search(Box<[u8; 20]>),
}

/// A mode as a plain value.
pub enum ModeView {
    Count,
    List,
    Search(Seq<u8>),
}

impl View for ProgramMode {
    type V = ModeView;

    open spec fn view(&self) -> ModeView {
        match self {
            ProgramMode::Count => ModeView::Count,
            ProgramMode::List => ModeView::List,
            ProgramMode::Search(hash) => ModeView::Search(hash@),
        }
    }
}

/// What a run has computed.
#[derive(Debug)]
pub enum Output {
    /// The count.
    Count(u32),
    /// The numbers that pass, ascending, each with its ordinal.
    List(Vec<(u32, u32)>),
    /// The number found, or `None` where there is none to find.
    Search(Option<u32>),
}

/// A line with one number on it.
pub open spec fn number_line(n: u32) -> Seq<u8> {
    decimal(n as nat).push(10)
}

/// A line with an ordinal and a value on it, a space between them.
pub open spec fn pair_line(pair: (u32, u32)) -> Seq<u8> {
    decimal(pair.0 as nat).push(32) + decimal(pair.1 as nat).push(10)
}

/// The lines of a listing, one to the pair.
pub open spec fn listing_lines(listing: Seq<(u32, u32)>) -> Seq<u8>
    decreases listing.len(),
{
    if listing.len() == 0 {
        Seq::empty()
    } else {
        listing_lines(listing.drop_last()) + pair_line(listing.last())
    }
}

/// What is printed of `output`: the count on a line; the pairs of a listing,
/// a line each; the number found on a line, or `-1` where none was found.
pub open spec fn rendered(output: Output) -> Seq<u8> {
    match output {
        Output::Count(count) => number_line(count),
        Output::List(listing) => listing_lines(listing@),
        Output::Search(Some(x)) => number_line(x),
        Output::Search(None) => seq![45u8, 49u8, 10u8],
    }
}

/// Appends the line of `pair` to `text`.
pub fn write_pair(text: &mut Vec<u8>, pair: (u32, u32))
    ensures
        final(text)@ == old(text)@ + pair_line(pair),
{
    write_decimal(text, pair.0);
    text.push(32);
    write_decimal(text, pair.1);
    text.push(10);
}

impl Output {
    /// What is printed of this output.
    pub fn render(&self) -> (text: Vec<u8>)
        ensures
            text@ == rendered(*self),
    {
        let mut text: Vec<u8> = Vec::new();
        match self {
            Output::Count(count) => {
                write_decimal(&mut text, *count);
                text.push(10);
            },
            Output::List(listing) => {
                let mut i: usize = 0;
                while i < listing.len()
                    invariant
                        i <= listing.len(),
                        text@ == listing_lines(listing@.take(i as int)),
                    decreases listing.len() - i,
                {
                    assert(listing@.take(i + 1).drop_last() =~= listing@.take(i as int));
                    write_pair(&mut text, listing[i]);
                    i += 1;
                }
                assert(listing@.take(i as int) =~= listing@);
            },
            Output::Search(Some(x)) => {
                write_decimal(&mut text, *x);
                text.push(10);
            },
            Output::Search(None) => {
                text.push(45);
                text.push(49);
                text.push(10);
            },
        }
        text
    }
}

/// Whether `output` is a right result of `mode` under `settings`.
pub open spec fn is_result(settings: Settings, mode: ProgramMode, output: Output) -> bool {
    match mode {
        ProgramMode::Count => output matches Output::Count(count) && count == passing(
            &settings.checksum_spec(),
            settings.bottom as int,
            settings.top as int,
        ).len(),
        ProgramMode::List => output matches Output::List(listing) && listing@ == numbered(
            passing(&settings.checksum_spec(), settings.bottom as int, settings.top as int),
            1,
        ),
        ProgramMode::Search(hash) => output matches Output::Search(answer) && answers_search(
            &settings.preimage_spec(*hash),
            settings.bottom as int,
            settings.top as int,
            answer,
        ),
    }
}

/// Runs `mode` under `settings` with the strategy `imp`.
pub fn run<T: Backend>(imp: &T, settings: &Settings, mode: ProgramMode) -> (output: Output)
    requires
        settings.wf(),
    ensures
        is_result(*settings, mode, output),
{
    match mode {
        ProgramMode::Count => Output::Count(imp.run_count(settings)),
        ProgramMode::List => Output::List(imp.run_list(settings)),
        ProgramMode::Search(hash) => Output::Search(imp.run_search(settings, hash)),
    }
}

/// Runs `mode` under `settings` with the strategy `imp`, unless the settings
/// are not valid: then nothing is dispatched, and `None` says so.
pub fn try_run<T: Backend>(imp: &T, settings: &Settings, mode: ProgramMode) -> (output: Option<
    Output,
>)
    ensures
        output is Some == settings.wf(),
        output matches Some(o) ==> is_result(*settings, mode, o),
{
    if settings.is_valid() {
        Some(run(imp, settings, mode))
    } else {
        None
    }
}

impl ProgramMode {
    /// Runs this mode under `settings` in one ascending pass; a search gives
    /// the least number that qualifies.
    pub fn run(self, settings: &Settings) -> (output: Output)
        requires
            settings.wf(),
        ensures
            is_result(*settings, self, output),
            self matches ProgramMode::Search(hash) ==> (output matches Output::Search(Some(x))
                ==> none_passes(&settings.preimage_spec(*hash), settings.bottom as int, x as int)),
    {
        match self {
            ProgramMode::Count => Output::Count(SequentialBackend.run_count(settings)),
            ProgramMode::List => Output::List(SequentialBackend.run_list(settings)),
            ProgramMode::Search(hash) => Output::Search(SequentialBackend.run_search(settings, hash)),
        }
    }
}

} // verus!
