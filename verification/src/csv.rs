//! The flat tabular model: an interned header table, runtime encoding
//! options, and the row parser that maps columns onto one data record.
//!
//! The well-known columns are fixed: position 0 carries the structure kind
//! token, positions 1 to 3 the structure identifier parts (agency, artefact
//! identifier, version), and position 4 the structure label cell, read only
//! when the label option asks for names.  An action column follows when the
//! header names position 5 `ACTION`; every further column is a structural
//! component when the header names it, a key cell when it is named
//! `SERIES_KEY` or `OBS_KEY` and the key option admits it, and unrecognized
//! otherwise.

use vstd::prelude::*;

use crate::fields::{ParseError, str_eq};

verus! {

/// A table mapping column positions to column names, built once per table.
/// A position missing from the table has no name.
#[derive(Debug, PartialEq)]
pub struct InternedHeaders(pub Vec<(usize, String)>);

/// The name the header table gives a position, if any; the first entry wins.
pub open spec fn header_name(hs: Seq<(usize, String)>, i: int) -> Option<Seq<char>>
    decreases hs.len(),
{
    if hs.len() == 0 {
        None
    } else if hs[0].0 == i {
        Some(hs[0].1@)
    } else {
        header_name(hs.drop_first(), i)
    }
}

impl InternedHeaders {
    /// Looks a position up in the table.
    pub fn lookup(&self, i: usize) -> (r: Option<&String>)
        ensures
            (match r {
                Some(s) => header_name(self.0@, i as int) == Some(s@),
                None => header_name(self.0@, i as int) is None,
            }),
    {
        let mut k: usize = 0;
        proof {
            assert(self.0@.subrange(0, self.0@.len() as int) =~= self.0@);
        }
        while k < self.0.len()
            invariant
                0 <= k <= self.0@.len(),
                header_name(self.0@, i as int) == header_name(
                    self.0@.subrange(k as int, self.0@.len() as int),
                    i as int,
                ),
            decreases self.0@.len() - k,
        {
            let ghost rest = self.0@.subrange(k as int, self.0@.len() as int);
            if self.0[k].0 == i {
                proof {
                    assert(rest[0] == self.0@[k as int]);
                }
                return Some(&self.0[k].1);
            }
            proof {
                assert(rest[0] == self.0@[k as int]);
                assert(rest.drop_first() =~= self.0@.subrange(
                    k as int + 1,
                    self.0@.len() as int,
                ));
            }
            k = k + 1;
        }
        proof {
            assert(self.0@.subrange(k as int, self.0@.len() as int) =~= Seq::<
                (usize, String),
            >::empty());
        }
        None
    }
}

/// The type of structure a record conforms to.
#[derive(Debug, Clone, Copy, PartialEq, Eq)]
pub enum Structure {
    DataFlow,
    DataStructure,
    DataProvision,
}

/// The (agency, artefact identifier, version) triple naming the schema a
/// tabular record conforms to.
#[derive(Debug, PartialEq, Eq)]
pub struct StructureId {
    agency: String,
    artefact_id: String,
    version: String,
}

impl StructureId {
    /// The agency part, as the contracts speak of it.
    pub closed spec fn agency_spec(&self) -> Seq<char> {
        self.agency@
    }

    pub closed spec fn artefact_id_spec(&self) -> Seq<char> {
        self.artefact_id@
    }

    pub closed spec fn version_spec(&self) -> Seq<char> {
        self.version@
    }

    pub fn new(agency: String, artefact_id: String, version: String) -> (r: StructureId)
        ensures
            r.agency_spec() == agency@,
            r.artefact_id_spec() == artefact_id@,
            r.version_spec() == version@,
    {
        StructureId { agency, artefact_id, version }
    }

    pub fn agency(&self) -> (r: &String)
        ensures
            r@ == self.agency_spec(),
    {
        &self.agency
    }

    pub fn artefact_id(&self) -> (r: &String)
        ensures
            r@ == self.artefact_id_spec(),
    {
        &self.artefact_id
    }

    pub fn version(&self) -> (r: &String)
        ensures
            r@ == self.version_spec(),
    {
        &self.version
    }
}

/// A structure identifier together with its localized label.
#[derive(Debug, PartialEq, Eq)]
pub struct StructureName {
    pub id: StructureId,
    pub localized: String,
}

/// An action describing how or why the data is being transmitted.
#[derive(Debug, Clone, Copy, PartialEq, Eq)]
pub enum Action {
    Append,
    Replace,
    Delete,
    Information,
}

impl Action {
    /// The single-character code of each action; any other character is
    /// outside the closed set.
    pub fn try_from(value: char) -> (r: Result<Action, ()>)
        ensures
            value == 'A' ==> r == Ok::<Action, ()>(Action::Append),
            value == 'R' ==> r == Ok::<Action, ()>(Action::Replace),
            value == 'D' ==> r == Ok::<Action, ()>(Action::Delete),
            value == 'I' ==> r == Ok::<Action, ()>(Action::Information),
            (value != 'A' && value != 'R' && value != 'D' && value != 'I') ==> r == Err::<
                Action,
                (),
            >(()),
    {
        match value {
            'A' => Ok(Action::Append),
            'R' => Ok(Action::Replace),
            'D' => Ok(Action::Delete),
            'I' => Ok(Action::Information),
            _ => Err(()),
        }
    }
}

impl Default for Action {
    /// An absent action column means plain information.
    fn default() -> (r: Action)
        ensures
            r == Action::Information,
    {
        Action::Information
    }
}

/// Whether a label cell carries an identifier, a localized name, or both.
#[derive(Debug, Clone, Copy, PartialEq, Eq)]
pub enum Labels {
    Id,
    Name,
    Both,
}

impl Default for Labels {
    fn default() -> (r: Labels)
        ensures
            r == Labels::Id,
    {
        Labels::Id
    }
}

/// Whether time-period text is passed through unchanged or rewritten to a
/// canonical form.
#[derive(Debug, Clone, Copy, PartialEq, Eq)]
pub enum TimeFormat {
    Original,
    Normalized,
}

impl Default for TimeFormat {
    fn default() -> (r: TimeFormat)
        ensures
            r == TimeFormat::Original,
    {
        TimeFormat::Original
    }
}

/// Which extra key columns may appear.
#[derive(Debug, Clone, Copy, PartialEq, Eq)]
pub enum Keys {
    NoKeys,
    Obs,
    Series,
    Both,
}

impl Default for Keys {
    fn default() -> (r: Keys)
        ensures
            r == Keys::NoKeys,
    {
        Keys::NoKeys
    }
}

/// Options configuring a tabular data message; they may be supplied
/// out-of-band rather than embedded in the file.
#[derive(Debug, Clone, Copy, PartialEq, Eq)]
pub struct DataOptions {
    pub labels: Labels,
    pub time_format: TimeFormat,
    pub keys: Keys,
}

impl Default for DataOptions {
    fn default() -> (r: DataOptions)
        ensures
            r == (DataOptions { labels: Labels::Id, time_format: TimeFormat::Original, keys: Keys::NoKeys }),
    {
        DataOptions { labels: Labels::Id, time_format: TimeFormat::Original, keys: Keys::NoKeys }
    }
}

/// Options configuring a tabular metadata message.
#[derive(Debug, Clone, Copy, PartialEq, Eq)]
pub struct MetadataOptions {
    pub labels: Labels,
}

impl Default for MetadataOptions {
    fn default() -> (r: MetadataOptions)
        ensures
            r == (MetadataOptions { labels: Labels::Id }),
    {
        MetadataOptions { labels: Labels::Id }
    }
}

/// One parsed tabular data record: the well-known fields, and two column
/// buckets keyed by position against the interned header.
#[derive(Debug, PartialEq)]
pub struct DataRecord {
    pub structure: Structure,
    pub structure_id: StructureId,
    /// Present exactly when the label option asks for names.
    pub structure_name: Option<StructureName>,
    /// An absent action column defaults to the information action.
    pub action: Action,
    pub series_key: Option<String>,
    pub obs_key: Option<String>,
    /// Cells of columns the header recognizes as structural components.
    pub components: Vec<(usize, String)>,
    /// Cells of columns the header has no name for.
    pub other: Vec<(usize, String)>,
}

/// How one free column of a row is bucketed, independent of the label
/// option: a key cell, a component cell, or an unrecognized cell.
pub enum ColumnClass {
    SeriesKey,
    ObsKey,
    Component,
    Unrecognized,
}

pub open spec fn spec_wants_series(keys: Keys) -> bool {
    keys is Series || keys is Both
}

pub open spec fn spec_wants_obs(keys: Keys) -> bool {
    keys is Obs || keys is Both
}

/// The class of column `i`, decided by the header and the key option before
/// any cell content is read.
pub open spec fn spec_classify(hs: Seq<(usize, String)>, keys: Keys, i: int) -> ColumnClass {
    match header_name(hs, i) {
        Option::None => ColumnClass::Unrecognized,
        Option::Some(n) => if n == "SERIES_KEY"@ && spec_wants_series(keys) {
            ColumnClass::SeriesKey
        } else if n == "OBS_KEY"@ && spec_wants_obs(keys) {
            ColumnClass::ObsKey
        } else {
            ColumnClass::Component
        },
    }
}

/// The component cells of the free columns `start..end`, in order.
pub open spec fn spec_components(
    hs: Seq<(usize, String)>,
    keys: Keys,
    row: Seq<String>,
    start: int,
    end: int,
) -> Seq<(usize, String)>
    decreases end - start,
{
    if start >= end {
        Seq::empty()
    } else {
        spec_components(hs, keys, row, start, end - 1) + (if spec_classify(hs, keys, end - 1)
            is Component {
            seq![((end - 1) as usize, row[end - 1])]
        } else {
            Seq::empty()
        })
    }
}

/// The unrecognized cells of the free columns `start..end`, in order.
pub open spec fn spec_unrecognized(
    hs: Seq<(usize, String)>,
    keys: Keys,
    row: Seq<String>,
    start: int,
    end: int,
) -> Seq<(usize, String)>
    decreases end - start,
{
    if start >= end {
        Seq::empty()
    } else {
        spec_unrecognized(hs, keys, row, start, end - 1) + (if spec_classify(hs, keys, end - 1)
            is Unrecognized {
            seq![((end - 1) as usize, row[end - 1])]
        } else {
            Seq::empty()
        })
    }
}

/// The first key cell of the given kind among the free columns, if any.
pub open spec fn spec_key(
    hs: Seq<(usize, String)>,
    keys: Keys,
    row: Seq<String>,
    start: int,
    end: int,
    series: bool,
) -> Option<String>
    decreases end - start,
{
    if start >= end {
        None
    } else {
        match spec_key(hs, keys, row, start, end - 1, series) {
            Some(x) => Some(x),
            None => {
                let cls = spec_classify(hs, keys, end - 1);
                if series && cls is SeriesKey {
                    Some(row[end - 1])
                } else if !series && cls is ObsKey {
                    Some(row[end - 1])
                } else {
                    None
                }
            },
        }
    }
}

/// Whether the action column is present: the header names position 5
/// `ACTION`.
pub open spec fn spec_has_action(hs: Seq<(usize, String)>) -> bool {
    header_name(hs, 5) == Some("ACTION"@)
}

/// The first free column: the action column, when present, shifts it by one.
pub open spec fn spec_free_start(hs: Seq<(usize, String)>) -> int {
    if spec_has_action(hs) {
        6
    } else {
        5
    }
}

/// What `parse_data_row` promises of a record parsed from `row` under the
/// given options: every field is a function of the header, the row, the key
/// option and the label option; the time-format option plays no part.
pub open spec fn data_row_shape(
    hs: Seq<(usize, String)>,
    keys: Keys,
    row: Seq<String>,
    rec: DataRecord,
    labels: Labels,
) -> bool {
    &&& row.len() >= 5
    &&& rec.structure == spec_structure_of(row[0]@)
    &&& rec.structure_id.agency_spec() == row[1]@
    &&& rec.structure_id.artefact_id_spec() == row[2]@
    &&& rec.structure_id.version_spec() == row[3]@
    &&& (rec.structure_name is Some <==> !(labels is Id))
    &&& (rec.structure_name matches Some(n) ==> n.localized@ == row[4]@ && n.id.agency_spec()
        == row[1]@ && n.id.artefact_id_spec() == row[2]@ && n.id.version_spec() == row[3]@)
    &&& rec.action == spec_row_action(hs, row)
    &&& rec.components@ == spec_components(hs, keys, row, spec_free_start(hs), row.len() as int)
    &&& rec.other@ == spec_unrecognized(hs, keys, row, spec_free_start(hs), row.len() as int)
    &&& rec.series_key == spec_key(hs, keys, row, spec_free_start(hs), row.len() as int, true)
    &&& rec.obs_key == spec_key(hs, keys, row, spec_free_start(hs), row.len() as int, false)
}

/// The recognized structure kind tokens.
pub open spec fn structure_tok_ok(c: Seq<char>) -> bool {
    c == "dataflow"@ || c == "datastructure"@ || c == "dataprovision"@
}

/// The kind a valid token names, tried in a fixed order.
pub open spec fn spec_structure_of(c: Seq<char>) -> Structure {
    if c == "dataflow"@ {
        Structure::DataFlow
    } else if c == "datastructure"@ {
        Structure::DataStructure
    } else {
        Structure::DataProvision
    }
}

/// The closed set of action characters.
pub open spec fn action_char_ok(c: char) -> bool {
    c == 'A' || c == 'R' || c == 'D' || c == 'I'
}

/// The action a valid character names.
pub open spec fn spec_action_of(c: char) -> Action {
    if c == 'A' {
        Action::Append
    } else if c == 'R' {
        Action::Replace
    } else if c == 'D' {
        Action::Delete
    } else {
        Action::Information
    }
}

/// Exactly the rows a parse accepts: at least the five well-known cells, a
/// recognized structure kind token, and, when the header names an action
/// column, an action cell holding exactly one recognized character.  The
/// options never decide success: they only choose what is recorded.
pub open spec fn spec_row_ok(hs: Seq<(usize, String)>, row: Seq<String>) -> bool {
    &&& row.len() >= 5
    &&& structure_tok_ok(row[0]@)
    &&& (spec_has_action(hs) ==> row.len() >= 6 && row[5]@.len() == 1 && action_char_ok(
        row[5]@[0],
    ))
}

/// The action a row carries: the mapped action cell when the header names the
/// action column, and plain information otherwise.
pub open spec fn spec_row_action(hs: Seq<(usize, String)>, row: Seq<String>) -> Action {
    if spec_has_action(hs) {
        spec_action_of(row[5]@[0])
    } else {
        Action::Information
    }
}

/// Parses one data row against the interned header and the options.  Column
/// interpretation is options-dependent, never content-dependent: the label
/// and key options are consulted before the header.  A malformed row fails
/// alone; the header table is never touched.
#[verifier::loop_isolation(false)]
#[verifier::rlimit(50)]
pub fn parse_data_row(headers: &InternedHeaders, row: &Vec<String>, opts: DataOptions) -> (r:
    Result<DataRecord, ParseError>)
    ensures
        (r is Ok) == spec_row_ok(headers.0@, row@),
        r matches Ok(rec) ==> data_row_shape(headers.0@, opts.keys, row@, rec, opts.labels),
{
    if row.len() < 5 {
        return Err(ParseError::Shape("row".to_owned(), crate::fields::ValueKind::Array));
    }
    let structure = if str_eq(row[0].as_str(), "dataflow") {
        Structure::DataFlow
    } else if str_eq(row[0].as_str(), "datastructure") {
        Structure::DataStructure
    } else if str_eq(row[0].as_str(), "dataprovision") {
        Structure::DataProvision
    } else {
        return Err(ParseError::Token(row[0].clone()));
    };
    let structure_id = StructureId::new(row[1].clone(), row[2].clone(), row[3].clone());
    let structure_name = match opts.labels {
        Labels::Id => None,
        _ => Some(
            StructureName {
                id: StructureId::new(row[1].clone(), row[2].clone(), row[3].clone()),
                localized: row[4].clone(),
            },
        ),
    };
    let has_action = match headers.lookup(5) {
        Some(n) => str_eq(n.as_str(), "ACTION"),
        None => false,
    };
    proof {
        assert(has_action == spec_has_action(headers.0@));
    }
    let mut action = Action::Information;
    let start: usize = if has_action {
        if row.len() < 6 {
            return Err(ParseError::Missing("ACTION".to_owned()));
        }
        let cell = &row[5];
        if cell.as_str().unicode_len() != 1 {
            return Err(ParseError::Token(cell.clone()));
        }
        let c = cell.as_str().get_char(0);
        action = match Action::try_from(c) {
            Ok(a) => a,
            Err(_) => { return Err(ParseError::Token(cell.clone())) },
        };
        6
    } else {
        5
    };
    let ghost hs = headers.0@;
    let ghost fs = spec_free_start(hs);
    let mut components: Vec<(usize, String)> = Vec::new();
    let mut other: Vec<(usize, String)> = Vec::new();
    let mut series_key: Option<String> = None;
    let mut obs_key: Option<String> = None;
    let mut i: usize = start;
    while i < row.len()
        invariant
            start <= i <= row@.len(),
            start as int == fs,
            components@ == spec_components(hs, opts.keys, row@, fs, i as int),
            other@ == spec_unrecognized(hs, opts.keys, row@, fs, i as int),
            series_key == spec_key(hs, opts.keys, row@, fs, i as int, true),
            obs_key == spec_key(hs, opts.keys, row@, fs, i as int, false),
        decreases row@.len() - i,
    {
        let cell = row[i].clone();
        match headers.lookup(i) {
            None => {
                other.push((i, cell));
            },
            Some(n) => {
                let is_series = str_eq(n.as_str(), "SERIES_KEY");
                let is_obs = str_eq(n.as_str(), "OBS_KEY");
                let wants_series = matches!(opts.keys, Keys::Series | Keys::Both);
                let wants_obs = matches!(opts.keys, Keys::Obs | Keys::Both);
                if is_series && wants_series {
                    if series_key.is_none() {
                        series_key = Some(cell);
                    }
                } else if is_obs && wants_obs {
                    if obs_key.is_none() {
                        obs_key = Some(cell);
                    }
                } else {
                    components.push((i, cell));
                }
            },
        }
        i = i + 1;
    }
    Ok(
        DataRecord {
            structure,
            structure_id,
            structure_name,
            action,
            series_key,
            obs_key,
            components,
            other,
        },
    )
}

/// The same raw row parsed under the identifier-only label option and under
/// the both-labels option differs exactly in the structure-name field: absent
/// under one, present under the other, with every other field identical.
pub proof fn lemma_labels_sensitivity(
    hs: Seq<(usize, String)>,
    keys: Keys,
    row: Seq<String>,
    a: DataRecord,
    b: DataRecord,
)
    requires
        data_row_shape(hs, keys, row, a, Labels::Id),
        data_row_shape(hs, keys, row, b, Labels::Both),
    ensures
        a.structure_name is None,
        b.structure_name is Some,
        a.structure == b.structure,
        a.action == b.action,
        a.structure_id.agency_spec() == b.structure_id.agency_spec(),
        a.structure_id.artefact_id_spec() == b.structure_id.artefact_id_spec(),
        a.structure_id.version_spec() == b.structure_id.version_spec(),
        a.components@ == b.components@,
        a.other@ == b.other@,
        a.series_key == b.series_key,
        a.obs_key == b.obs_key,
{
}

/// The time-format option is carried for the caller and never consulted by
/// the row parser: one row parses identically under the original and the
/// normalized setting.
pub proof fn lemma_time_format_passthrough(
    hs: Seq<(usize, String)>,
    keys: Keys,
    labels: Labels,
    row: Seq<String>,
    a: DataRecord,
    b: DataRecord,
)
    requires
        data_row_shape(hs, keys, row, a, labels),
        data_row_shape(hs, keys, row, b, labels),
    ensures
        a.structure == b.structure,
        a.action == b.action,
        a.structure_id.agency_spec() == b.structure_id.agency_spec(),
        a.structure_id.artefact_id_spec() == b.structure_id.artefact_id_spec(),
        a.structure_id.version_spec() == b.structure_id.version_spec(),
        a.structure_name is Some <==> b.structure_name is Some,
        (match (a.structure_name, b.structure_name) {
            (Some(n), Some(m)) => n.localized@ == m.localized@,
            _ => true,
        }),
        a.components@ == b.components@,
        a.other@ == b.other@,
        a.series_key == b.series_key,
        a.obs_key == b.obs_key,
{
}



/// One parsed tabular metadata record: the well-known fields, the target
/// columns, and two column buckets keyed by position against the header.
///
/// The well-known columns are fixed: position 0 the structure kind token,
/// positions 1 to 3 the structure identifier parts, position 4 the structure
/// label cell (read when the label option asks for names), position 5 the
/// metadata set identifier, position 6 the metadata set label cell (read when
/// the label option asks for names).  An action column follows when the
/// header names position 7 `ACTION`; among the further columns, those the
/// header names `TARGET_TYPE` and `TARGET_ID` feed the target lists in
/// order, the first named `TARGET_NAME` is the target label (read when the
/// label option asks for names), any other named column is a component, and
/// an unnamed one is unrecognized.
#[derive(Debug, PartialEq)]
pub struct MetadataRecord {
    pub md_structure: Structure,
    pub md_structure_id: StructureId,
    /// Present exactly when the label option asks for names.
    pub md_structure_name: Option<StructureName>,
    pub metadataset_id: String,
    /// Present exactly when the label option asks for names.
    pub metadataset_name: Option<String>,
    /// An absent action column defaults to the information action.
    pub action: Action,
    pub target_types: Vec<String>,
    pub target_ids: Vec<String>,
    /// The first target label, when the label option asks for names.
    pub target_names: Option<String>,
    pub components: Vec<(usize, String)>,
    pub others: Vec<(usize, String)>,
}

/// How one free column of a metadata row is bucketed, independent of the
/// label option.
pub enum MdColumnClass {
    TargetType,
    TargetId,
    TargetName,
    Component,
    Unrecognized,
}

/// The class of free column `i` of a metadata row, decided by the header
/// before any cell content is read.
pub open spec fn md_classify(hs: Seq<(usize, String)>, i: int) -> MdColumnClass {
    match header_name(hs, i) {
        Option::None => MdColumnClass::Unrecognized,
        Option::Some(n) => if n == "TARGET_TYPE"@ {
            MdColumnClass::TargetType
        } else if n == "TARGET_ID"@ {
            MdColumnClass::TargetId
        } else if n == "TARGET_NAME"@ {
            MdColumnClass::TargetName
        } else {
            MdColumnClass::Component
        },
    }
}

/// The cells of the free columns `start..end` of one class, in order.
pub open spec fn md_targets(
    hs: Seq<(usize, String)>,
    row: Seq<String>,
    start: int,
    end: int,
    ids: bool,
) -> Seq<String>
    decreases end - start,
{
    if start >= end {
        Seq::empty()
    } else {
        md_targets(hs, row, start, end - 1, ids) + (if (ids && md_classify(hs, end - 1)
            is TargetId) || (!ids && md_classify(hs, end - 1) is TargetType) {
            seq![row[end - 1]]
        } else {
            Seq::empty()
        })
    }
}

/// The first target-label cell among the free columns, if any.
pub open spec fn md_target_name(
    hs: Seq<(usize, String)>,
    row: Seq<String>,
    start: int,
    end: int,
) -> Option<String>
    decreases end - start,
{
    if start >= end {
        None
    } else {
        match md_target_name(hs, row, start, end - 1) {
            Some(x) => Some(x),
            None => if md_classify(hs, end - 1) is TargetName {
                Some(row[end - 1])
            } else {
                None
            },
        }
    }
}

/// The component cells of the free columns of a metadata row, in order.
pub open spec fn md_components(
    hs: Seq<(usize, String)>,
    row: Seq<String>,
    start: int,
    end: int,
) -> Seq<(usize, String)>
    decreases end - start,
{
    if start >= end {
        Seq::empty()
    } else {
        md_components(hs, row, start, end - 1) + (if md_classify(hs, end - 1) is Component {
            seq![((end - 1) as usize, row[end - 1])]
        } else {
            Seq::empty()
        })
    }
}

/// The unrecognized cells of the free columns of a metadata row, in order.
pub open spec fn md_unrecognized(
    hs: Seq<(usize, String)>,
    row: Seq<String>,
    start: int,
    end: int,
) -> Seq<(usize, String)>
    decreases end - start,
{
    if start >= end {
        Seq::empty()
    } else {
        md_unrecognized(hs, row, start, end - 1) + (if md_classify(hs, end - 1) is Unrecognized {
            seq![((end - 1) as usize, row[end - 1])]
        } else {
            Seq::empty()
        })
    }
}

/// Whether the metadata row's action column is present: the header names
/// position 7 `ACTION`.
pub open spec fn md_has_action(hs: Seq<(usize, String)>) -> bool {
    header_name(hs, 7) == Some("ACTION"@)
}

/// The first free column of a metadata row.
pub open spec fn md_free_start(hs: Seq<(usize, String)>) -> int {
    if md_has_action(hs) {
        8
    } else {
        7
    }
}

/// Exactly the metadata rows a parse accepts.
pub open spec fn md_row_ok(hs: Seq<(usize, String)>, row: Seq<String>) -> bool {
    &&& row.len() >= 7
    &&& structure_tok_ok(row[0]@)
    &&& (md_has_action(hs) ==> row.len() >= 8 && row[7]@.len() == 1 && action_char_ok(row[7]@[0]))
}

/// The action a metadata row carries.
pub open spec fn md_row_action(hs: Seq<(usize, String)>, row: Seq<String>) -> Action {
    if md_has_action(hs) {
        spec_action_of(row[7]@[0])
    } else {
        Action::Information
    }
}

/// What `parse_metadata_row` promises of a record parsed from `row`: every
/// field is a function of the header, the row and the label option; the
/// label option decides only which label cells are recorded.
pub open spec fn metadata_row_shape(
    hs: Seq<(usize, String)>,
    row: Seq<String>,
    rec: MetadataRecord,
    labels: Labels,
) -> bool {
    &&& row.len() >= 7
    &&& rec.md_structure == spec_structure_of(row[0]@)
    &&& rec.md_structure_id.agency_spec() == row[1]@
    &&& rec.md_structure_id.artefact_id_spec() == row[2]@
    &&& rec.md_structure_id.version_spec() == row[3]@
    &&& (rec.md_structure_name is Some <==> !(labels is Id))
    &&& (rec.md_structure_name matches Some(n) ==> n.localized@ == row[4]@ && n.id.agency_spec()
        == row[1]@ && n.id.artefact_id_spec() == row[2]@ && n.id.version_spec() == row[3]@)
    &&& rec.metadataset_id@ == row[5]@
    &&& (rec.metadataset_name is Some <==> !(labels is Id))
    &&& (rec.metadataset_name matches Some(n) ==> n@ == row[6]@)
    &&& rec.action == md_row_action(hs, row)
    &&& rec.target_types@ == md_targets(hs, row, md_free_start(hs), row.len() as int, false)
    &&& rec.target_ids@ == md_targets(hs, row, md_free_start(hs), row.len() as int, true)
    &&& rec.target_names == (if labels is Id {
        None::<String>
    } else {
        md_target_name(hs, row, md_free_start(hs), row.len() as int)
    })
    &&& rec.components@ == md_components(hs, row, md_free_start(hs), row.len() as int)
    &&& rec.others@ == md_unrecognized(hs, row, md_free_start(hs), row.len() as int)
}

/// Parses one metadata row against the interned header and the options.  A
/// malformed row fails alone; the header table is never touched.
#[verifier::loop_isolation(false)]
#[verifier::rlimit(50)]
pub fn parse_metadata_row(headers: &InternedHeaders, row: &Vec<String>, opts: MetadataOptions) -> (
    r: Result<MetadataRecord, ParseError>)
    ensures
        (r is Ok) == md_row_ok(headers.0@, row@),
        r matches Ok(rec) ==> metadata_row_shape(headers.0@, row@, rec, opts.labels),
{
    if row.len() < 7 {
        return Err(ParseError::Shape("row".to_owned(), crate::fields::ValueKind::Array));
    }
    let md_structure = if str_eq(row[0].as_str(), "dataflow") {
        Structure::DataFlow
    } else if str_eq(row[0].as_str(), "datastructure") {
        Structure::DataStructure
    } else if str_eq(row[0].as_str(), "dataprovision") {
        Structure::DataProvision
    } else {
        return Err(ParseError::Token(row[0].clone()));
    };
    let md_structure_id = StructureId::new(row[1].clone(), row[2].clone(), row[3].clone());
    let wants_names = !matches!(opts.labels, Labels::Id);
    let md_structure_name = if wants_names {
        Some(
            StructureName {
                id: StructureId::new(row[1].clone(), row[2].clone(), row[3].clone()),
                localized: row[4].clone(),
            },
        )
    } else {
        None
    };
    let metadataset_id = row[5].clone();
    let metadataset_name = if wants_names {
        Some(row[6].clone())
    } else {
        None
    };
    let has_action = match headers.lookup(7) {
        Some(n) => str_eq(n.as_str(), "ACTION"),
        None => false,
    };
    proof {
        assert(has_action == md_has_action(headers.0@));
    }
    let mut action = Action::Information;
    let start: usize = if has_action {
        if row.len() < 8 {
            return Err(ParseError::Missing("ACTION".to_owned()));
        }
        let cell = &row[7];
        if cell.as_str().unicode_len() != 1 {
            return Err(ParseError::Token(cell.clone()));
        }
        let c = cell.as_str().get_char(0);
        action = match Action::try_from(c) {
            Ok(a) => a,
            Err(_) => { return Err(ParseError::Token(cell.clone())) },
        };
        8
    } else {
        7
    };
    let ghost hs = headers.0@;
    let ghost fs = md_free_start(hs);
    let mut target_types: Vec<String> = Vec::new();
    let mut target_ids: Vec<String> = Vec::new();
    let mut found_name: Option<String> = None;
    let mut components: Vec<(usize, String)> = Vec::new();
    let mut others: Vec<(usize, String)> = Vec::new();
    let mut i: usize = start;
    while i < row.len()
        invariant
            start <= i <= row@.len(),
            start as int == fs,
            target_types@ == md_targets(hs, row@, fs, i as int, false),
            target_ids@ == md_targets(hs, row@, fs, i as int, true),
            found_name == md_target_name(hs, row@, fs, i as int),
            components@ == md_components(hs, row@, fs, i as int),
            others@ == md_unrecognized(hs, row@, fs, i as int),
        decreases row@.len() - i,
    {
        let cell = row[i].clone();
        match headers.lookup(i) {
            None => {
                others.push((i, cell));
            },
            Some(n) => {
                if str_eq(n.as_str(), "TARGET_TYPE") {
                    target_types.push(cell);
                } else if str_eq(n.as_str(), "TARGET_ID") {
                    target_ids.push(cell);
                } else if str_eq(n.as_str(), "TARGET_NAME") {
                    if found_name.is_none() {
                        found_name = Some(cell);
                    }
                } else {
                    components.push((i, cell));
                }
            },
        }
        i = i + 1;
    }
    let target_names = if wants_names {
        found_name
    } else {
        None
    };
    Ok(
        MetadataRecord {
            md_structure,
            md_structure_id,
            md_structure_name,
            metadataset_id,
            metadataset_name,
            action,
            target_types,
            target_ids,
            target_names,
            components,
            others,
        },
    )
}

} // verus!
