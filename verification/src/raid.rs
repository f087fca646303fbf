//! RAID devices and how a URI describes one.

use std::num::ParseIntError;
use vstd::arithmetic::power2::is_pow2;
use vstd::prelude::*;

use crate::error::{BdevError, BdevErrorView};
use crate::level::{
    law_level_demands, law_objection_names_first_broken_rule, law_schemes_select_levels,
    scheme_level, strip_size_ok, RaidLevel,
};
use crate::text::{
    decimal, decimal_text, join, joined, law_decimal_reads_back, law_joined_splits_back,
    law_pieces_count, law_pieces_join_back, parse_u32, pieces, quote, quoted, split, texts,
    u32_error, u32_value,
};
use crate::uri::{
    law_segments_of_path, parameter_map, path_segments, reject_unknown_parameters, unknown_names,
    unknown_parameters_error, Uri, UriView,
};
use crate::uuids::{draw_uuid, drawn, is_random_uuid, parse_uuid, parsed_uuid};

verus! {

/// Generic RAID bdev configuration
pub struct Raid {
    /// the name of the bdev, this is equal to the URI path minus the leading '/'
    pub name: String,
    /// alias which can be used to open the bdev
    pub alias: String,
    /// the list of child devices.
    pub disks: Vec<String>,
    /// the devices will be striped across in chunks of this size in KB (must be power of 2, >= 4KB, <= 64MB)
    /// For levels that don't use strip_size, this field is ignored
    pub strip_size_kb: u32,
    /// uuid for the spdk bdev, as the number that its bytes make
    pub uuid: u128,
    /// the RAID level
    pub level: &'static RaidLevel,
}

/// A `Raid` with its texts as sequences of characters.
pub struct RaidView {
    pub name: Seq<char>,
    pub alias: Seq<char>,
    pub disks: Seq<Seq<char>>,
    pub strip_size_kb: u32,
    pub uuid: u128,
    pub level: RaidLevel,
}

impl View for Raid {
    type V = RaidView;

    open spec fn view(&self) -> RaidView {
        RaidView {
            name: self.name@,
            alias: self.alias@,
            disks: texts(self.disks@),
            strip_size_kb: self.strip_size_kb,
            uuid: self.uuid,
            level: *self.level,
        }
    }
}

impl RaidView {
    /// The device has a name, obeys the rules of its level, and has the default
    /// strip size where the level does not stripe.
    pub open spec fn valid(self) -> bool {
        &&& self.name.len() > 0
        &&& self.level.objection(self.disks.len(), self.strip_size_kb) is None
        &&& !self.level.strip_size_required ==> self.strip_size_kb
            == self.level.default_strip_size_kb
    }
}

/// The parameters that a RAID URI may have.
pub open spec fn raid_parameters() -> Seq<Seq<char>> {
    seq!["strip_size"@, "uuid"@, "children"@]
}

/// The error for a URI that describes no device.
pub open spec fn invalid_uri(uri: UriView, message: Seq<char>) -> BdevErrorView {
    BdevErrorView::InvalidUri { uri: uri.text, message }
}

/// The strip size that a URI gives a device of some level: the value of the
/// parameter, where the level stripes and the parameter is there, or else the
/// level's default.
pub open spec fn uri_strip_size(uri: UriView, level: RaidLevel) -> Result<u32, BdevErrorView> {
    let parameters = parameter_map(uri.query);
    if level.strip_size_required && parameters.contains_key("strip_size"@) {
        match u32_value(parameters["strip_size"@]) {
            Some(strip_size_kb) => Ok(strip_size_kb),
            None => Err(
                BdevErrorView::IntParamParseFailed {
                    source: u32_error(parameters["strip_size"@]),
                    uri: uri.text,
                    parameter: "strip_size"@,
                    value: parameters["strip_size"@],
                },
            ),
        }
    } else {
        Ok(level.default_strip_size_kb)
    }
}

/// The level and the strip size that a URI gives a device.
pub open spec fn uri_geometry(uri: UriView) -> Result<(RaidLevel, u32), BdevErrorView> {
    match scheme_level(uri.scheme) {
        None => Err(invalid_uri(uri, "invalid scheme"@)),
        Some(level) => if path_segments(uri.path).len() == 0 {
            Err(invalid_uri(uri, "empty path"@))
        } else {
            match uri_strip_size(uri, level) {
                Ok(strip_size_kb) => Ok((level, strip_size_kb)),
                Err(error) => Err(error),
            }
        },
    }
}

/// The device of a URI, once its level and its strip size are known, and what
/// came of reading or making its UUID.
pub open spec fn raid_with(
    uri: UriView,
    level: RaidLevel,
    strip_size_kb: u32,
    uuid: Result<u128, uuid::Error>,
) -> Result<RaidView, BdevErrorView> {
    let parameters = parameter_map(uri.query);
    if uuid is Err {
        Err(BdevErrorView::UuidParamParseFailed { source: uuid->Err_0, uri: uri.text })
    } else if !parameters.contains_key("children"@) {
        Err(invalid_uri(uri, "'children' must be specified"@))
    } else {
        let disks = pieces(parameters["children"@], ',');
        match level.objection(disks.len(), strip_size_kb) {
            Some(message) => Err(invalid_uri(uri, message)),
            None => if !parameters.dom().subset_of(raid_parameters().to_set()) {
                Err(unknown_parameters_error(uri, raid_parameters()))
            } else {
                Ok(
                    RaidView {
                        name: uri.path.skip(1),
                        alias: uri.text,
                        disks,
                        strip_size_kb,
                        uuid: uuid->Ok_0,
                        level,
                    },
                )
            },
        }
    }
}

/// The device that a URI describes, or what is wrong with the URI.
pub open spec fn raid_of(uri: UriView, uuid: Result<u128, uuid::Error>) -> Result<
    RaidView,
    BdevErrorView,
> {
    match uri_geometry(uri) {
        Ok((level, strip_size_kb)) => raid_with(uri, level, strip_size_kb, uuid),
        Err(error) => Err(error),
    }
}

/// A result with its device and its error as mathematical values.
pub open spec fn outcome(result: Result<Raid, BdevError>) -> Result<RaidView, BdevErrorView> {
    match result {
        Ok(raid) => Ok(raid@),
        Err(error) => Err(error@),
    }
}

/// What a debug print of a device shows.
pub open spec fn raid_debug(raid: RaidView) -> Seq<char> {
    "Raid"@ + raid.level.name@ + " '"@ + raid.name + "' (strip_size: "@ + decimal(
        raid.strip_size_kb as nat,
    ) + "KB) <= ["@ + joined(raid.disks.map_values(|disk: Seq<char>| quoted(disk)), ", "@) + "]"@
}

/// Lists the parameters that a RAID URI may have.
fn known_parameters() -> (known: Vec<String>)
    ensures
        texts(known@) == raid_parameters(),
{
    let mut known: Vec<String> = Vec::new();
    known.push("strip_size".to_string());
    known.push("uuid".to_string());
    known.push("children".to_string());
    assert(texts(known@) == raid_parameters());
    known
}

impl Raid {
    /// Puts a device together. Nothing is checked.
    pub fn new(
        name: String,
        alias: String,
        disks: Vec<String>,
        level: &'static RaidLevel,
        uuid: u128,
        strip_size_kb: u32,
    ) -> (raid: Self)
        ensures
            raid.name == name,
            raid.alias == alias,
            raid.disks == disks,
            raid.level == level,
            raid.uuid == uuid,
            raid.strip_size_kb == strip_size_kb,
    {
        Self { name, alias, disks, level, uuid, strip_size_kb }
    }

    /// Takes what came of reading the value of the strip size parameter as a
    /// number. The error of reading it is kept.
    pub fn strip_size(uri: &Uri, value: String, number: Result<u32, ParseIntError>) -> (strip_size:
        Result<u32, BdevError>)
        ensures
            match (number, strip_size) {
                (Ok(read), Ok(strip_size_kb)) => strip_size_kb == read,
                (Err(source), Err(error)) => error@ == (BdevErrorView::IntParamParseFailed {
                    source,
                    uri: uri.text@,
                    parameter: "strip_size"@,
                    value: value@,
                }),
                _ => false,
            },
            strip_size matches Err(error) ==> {
                &&& error matches BdevError::IntParamParseFailed {
                    source,
                    uri: text,
                    parameter,
                    value: shown,
                }
                &&& number == Err::<u32, _>(source)
                &&& text@ == uri.text@
                &&& parameter@ == "strip_size"@
                &&& shown@ == value@
            },
    {
        match number {
            Ok(strip_size_kb) => Ok(strip_size_kb),
            Err(source) => Err(
                BdevError::IntParamParseFailed {
                    source,
                    uri: uri.text.clone(),
                    parameter: "strip_size".to_string(),
                    value,
                },
            ),
        }
    }

    /// Reads the level and the strip size from a URI. A strip size is ignored
    /// where the level does not stripe.
    pub fn geometry(uri: &Uri) -> (geometry: Result<(&'static RaidLevel, u32), BdevError>)
        ensures
            match geometry {
                Ok((level, strip_size_kb)) => uri_geometry(uri@) == Ok::<_, BdevErrorView>(
                    (*level, strip_size_kb),
                ),
                Err(error) => uri_geometry(uri@) == Err::<(RaidLevel, u32), _>(error@),
            },
            geometry matches Ok((level, strip_size_kb)) ==> {
                &&& uri.scheme@ == "raid0"@ && level == RaidLevel::raid0() || uri.scheme@
                    == "raid1"@ && level == RaidLevel::raid1() || uri.scheme@ == "raid5f"@ && level
                    == RaidLevel::raid5f() || uri.scheme@ == "concat"@ && level
                    == RaidLevel::concat()
                &&& uri.path@.len() >= 2 && uri.path@[0] == '/'
                &&& if level.strip_size_required && parameter_map(uri@.query).contains_key(
                    "strip_size"@,
                ) {
                    u32_value(parameter_map(uri@.query)["strip_size"@]) == Some(strip_size_kb)
                } else {
                    strip_size_kb == level.default_strip_size_kb
                }
            },
    {
        let level = match RaidLevel::from_scheme(uri.scheme.as_str()) {
            Some(level) => level,
            None => {
                return Err(
                    BdevError::InvalidUri {
                        uri: uri.text.clone(),
                        message: "invalid scheme".to_string(),
                    },
                );
            },
        };
        let segments = uri.segments();
        assert(segments@.len() == path_segments(uri@.path).len());
        if segments.len() == 0 {
            return Err(
                BdevError::InvalidUri {
                    uri: uri.text.clone(),
                    message: "empty path".to_string(),
                },
            );
        }
        if level.strip_size_required {
            if let Some(value) = uri.parameter("strip_size") {
                let number = parse_u32(value.as_str());
                return match Raid::strip_size(uri, value, number) {
                    Ok(strip_size_kb) => Ok((level, strip_size_kb)),
                    Err(error) => Err(error),
                };
            }
        }
        Ok((level, level.default_strip_size_kb))
    }

    /// Makes the device of a URI, given the level and the strip size that were
    /// read from it, and what came of reading or making its UUID.
    pub fn with_uuid(
        uri: &Uri,
        level: &'static RaidLevel,
        strip_size_kb: u32,
        uuid: Result<u128, uuid::Error>,
    ) -> (made: Result<Raid, BdevError>)
        requires
            uri@.path.len() > 0 && uri@.path[0] == '/',
        ensures
            outcome(made) == raid_with(uri@, *level, strip_size_kb, uuid),
            made matches Ok(raid) ==> {
                &&& raid.level == level
                &&& raid.strip_size_kb == strip_size_kb
                &&& uuid == Ok::<_, uuid::Error>(raid.uuid)
                &&& seq!['/'] + raid.name@ == uri.path@
                &&& raid.alias@ == uri.text@
                &&& forall|i: int|
                    0 <= i < raid.disks@.len() ==> !(#[trigger] raid.disks@[i])@.contains(',')
                &&& joined(Seq::new(raid.disks@.len(), |i: int| raid.disks@[i]@), seq![','])
                    == parameter_map(uri@.query)["children"@]
                &&& raid.disks@.len() >= raid.level.min_devices
                &&& raid.level.strip_size_required ==> 4 <= raid.strip_size_kb <= 65536 && is_pow2(
                    raid.strip_size_kb as int,
                )
                &&& forall|i: int|
                    0 <= i < uri.query@.len() ==> {
                        let name = (#[trigger] uri.query@[i]).0@;
                        name == "strip_size"@ || name == "uuid"@ || name == "children"@
                    }
            },
    {
        let uuid = match uuid {
            Ok(uuid) => uuid,
            Err(source) => {
                return Err(BdevError::UuidParamParseFailed { source, uri: uri.text.clone() });
            },
        };
        let children = match uri.parameter("children") {
            Some(children) => split(children.as_str(), ','),
            None => {
                return Err(
                    BdevError::InvalidUri {
                        uri: uri.text.clone(),
                        message: "'children' must be specified".to_string(),
                    },
                );
            },
        };
        assert(children@.len() == texts(children@).len());
        if let Err(message) = level.validate(children.len(), strip_size_kb) {
            return Err(BdevError::InvalidUri { uri: uri.text.clone(), message });
        }
        if let Err(error) = reject_unknown_parameters(uri, &known_parameters()) {
            return Err(error);
        }
        let path = uri.path.as_str();
        let name = path.substring_char(1, path.unicode_len()).to_string();
        assert(name@ == uri.path@.skip(1));
        Ok(Self::new(name, uri.text.clone(), children, level, uuid, strip_size_kb))
    }

    /// What a debug print of the device shows: its level, its name, its strip
    /// size and its children.
    pub fn debug_text(&self) -> (text: String)
        ensures
            text@ == raid_debug(self@),
            text@ == "Raid"@ + self.level.name@ + " '"@ + self.name@ + "' (strip_size: "@ + decimal(
                self.strip_size_kb as nat,
            ) + "KB) <= ["@ + joined(
                Seq::new(self.disks@.len(), |i: int| quoted(self.disks@[i]@)),
                ", "@,
            ) + "]"@,
    {
        let mut quoted_disks: Vec<String> = Vec::new();
        let mut i: usize = 0;
        while i < self.disks.len()
            invariant
                i <= self.disks.len(),
                texts(quoted_disks@) == self@.disks.take(i as int).map_values(
                    |disk: Seq<char>| quoted(disk),
                ),
            decreases self.disks.len() - i,
        {
            let ghost before = texts(quoted_disks@);
            quoted_disks.push(quote(self.disks[i].as_str()));
            assert(texts(quoted_disks@) == before.push(quoted(self.disks@[i as int]@)));
            i = i + 1;
        }
        assert(self@.disks.take(i as int) == self@.disks);
        assert(texts(quoted_disks@) == Seq::new(
            self.disks@.len(),
            |i: int| quoted(self.disks@[i]@),
        ));
        "Raid".to_string()
            .concat(self.level.name)
            .concat(" '")
            .concat(self.name.as_str())
            .concat("' (strip_size: ")
            .concat(decimal_text(self.strip_size_kb as u64).as_str())
            .concat("KB) <= [")
            .concat(join(&quoted_disks, ", ").as_str())
            .concat("]")
    }

    /// The name of the device.
    pub fn get_name(&self) -> (name: String)
        ensures
            name@ == self.name@,
    {
        self.name.clone()
    }
}

/// What `try_from` returns is not a function of the URI: a URI without a UUID
/// makes a device with a random one.
impl vstd::std_specs::convert::TryFromSpecImpl<&Uri> for Raid {
    open spec fn obeys_try_from_spec() -> bool {
        false
    }

    open spec fn try_from_spec(uri: &Uri) -> Result<Self, BdevError> {
        arbitrary()
    }
}

impl TryFrom<&Uri> for Raid {
    type Error = BdevError;

    /// Makes the device that a URI describes. Its UUID is the one that the URI
    /// gives, or a random one.
    fn try_from(uri: &Uri) -> (made: Result<Self, BdevError>)
        ensures
            parameter_map(uri@.query).contains_key("uuid"@) ==> outcome(made) == raid_of(
                uri@,
                parsed_uuid(parameter_map(uri@.query)["uuid"@]),
            ),
            !parameter_map(uri@.query).contains_key("uuid"@) ==> exists|uuid: u128| #[trigger]
                is_random_uuid(uuid) && outcome(made) == raid_of(uri@, Ok(uuid)),
            made matches Ok(raid) ==> raid@.valid(),
            made matches Ok(raid) ==> {
                &&& uri.scheme@ == "raid0"@ && raid.level == RaidLevel::raid0() || uri.scheme@
                    == "raid1"@ && raid.level == RaidLevel::raid1() || uri.scheme@ == "raid5f"@
                    && raid.level == RaidLevel::raid5f() || uri.scheme@ == "concat"@ && raid.level
                    == RaidLevel::concat()
                &&& raid.name@.len() > 0
                &&& seq!['/'] + raid.name@ == uri.path@
                &&& raid.alias@ == uri.text@
                &&& forall|i: int|
                    0 <= i < raid.disks@.len() ==> !(#[trigger] raid.disks@[i])@.contains(',')
                &&& joined(Seq::new(raid.disks@.len(), |i: int| raid.disks@[i]@), seq![','])
                    == parameter_map(uri@.query)["children"@]
                &&& raid.disks@.len() >= raid.level.min_devices
                &&& raid.level.strip_size_required ==> 4 <= raid.strip_size_kb <= 65536 && is_pow2(
                    raid.strip_size_kb as int,
                )
                &&& forall|i: int|
                    0 <= i < uri.query@.len() ==> {
                        let name = (#[trigger] uri.query@[i]).0@;
                        name == "strip_size"@ || name == "uuid"@ || name == "children"@
                    }
                &&& if raid.level.strip_size_required && parameter_map(uri@.query).contains_key(
                    "strip_size"@,
                ) {
                    u32_value(parameter_map(uri@.query)["strip_size"@]) == Some(raid.strip_size_kb)
                } else {
                    raid.strip_size_kb == raid.level.default_strip_size_kb
                }
            },
            // The UUID that the URI gives is kept; where it gives none, the device
            // has one that was drawn from the random source.
            made matches Ok(raid) ==> {
                ||| {
                    &&& exists|i: int|
                        0 <= i < uri.query@.len() && (#[trigger] uri.query@[i]).0@ == "uuid"@
                    &&& parsed_uuid(parameter_map(uri@.query)["uuid"@]) == Ok::<_, uuid::Error>(
                        raid.uuid,
                    )
                }
                ||| {
                    &&& forall|i: int|
                        0 <= i < uri.query@.len() ==> (#[trigger] uri.query@[i]).0@ != "uuid"@
                    &&& drawn(raid.uuid)
                    &&& raid.uuid & 0xF000_C000_0000_0000_0000u128
                        == 0x4000_8000_0000_0000_0000u128
                }
            },
    {
        assert(is_random_uuid(0x4000_8000_0000_0000_0000u128)) by (bit_vector);
        let (level, strip_size_kb) = match Raid::geometry(uri) {
            Ok(geometry) => geometry,
            Err(error) => {
                return Err(error);
            },
        };
        let uuid = match uri.parameter("uuid") {
            Some(text) => parse_uuid(text.as_str()),
            None => Ok(draw_uuid()),
        };
        proof {
            law_accepted_device_is_valid(uri@, uuid);
        }
        Raid::with_uuid(uri, level, strip_size_kb, uuid)
    }
}

/// A device stands for its parts, each under its own name.
pub proof fn law_raid_parts(raid: Raid)
    ensures
        raid@.name == raid.name@,
        raid@.alias == raid.alias@,
        raid@.disks.len() == raid.disks@.len(),
        forall|i: int| 0 <= i < raid.disks@.len() ==> #[trigger] raid@.disks[i] == raid.disks@[i]@,
        raid@.strip_size_kb == raid.strip_size_kb,
        raid@.uuid == raid.uuid,
        raid@.level == *raid.level,
{
}

/// A result stands for its device or for its error.
pub proof fn law_outcome_parts(result: Result<Raid, BdevError>)
    ensures
        match result {
            Ok(raid) => outcome(result) == Ok::<_, BdevErrorView>(raid@),
            Err(error) => outcome(result) == Err::<RaidView, _>(error@),
        },
{
}

/// A URI is accepted exactly where its scheme is one of the four, its path goes on
/// after the leading slash, a strip size that matters is a power of two from 4 KB
/// to 64 MB, a UUID can be had, it names as many children as the scheme needs (one
/// more than there are commas), and it has no other parameters.
pub proof fn law_accepted_iff(uri: UriView, uuid: Result<u128, uuid::Error>)
    ensures
        raid_of(uri, uuid) is Ok <==> {
            let parameters = parameter_map(uri.query);
            let striping = uri.scheme == "raid0"@ || uri.scheme == "raid5f"@;
            &&& striping || uri.scheme == "raid1"@ || uri.scheme == "concat"@
            &&& uri.path.len() >= 2 && uri.path[0] == '/'
            &&& striping && parameters.contains_key("strip_size"@) ==> {
                let number = u32_value(parameters["strip_size"@]);
                number is Some && 4 <= number->0 <= 65536 && is_pow2(number->0 as int)
            }
            &&& uuid is Ok
            &&& parameters.contains_key("children"@)
            &&& parameters["children"@].filter(|c: char| c == ',').len() + 1 >= if uri.scheme
                == "raid5f"@ {
                3
            } else if uri.scheme == "concat"@ {
                1
            } else {
                2int
            }
            &&& forall|name: Seq<char>| #[trigger]
                parameters.contains_key(name) ==> name == "strip_size"@ || name == "uuid"@ || name
                    == "children"@
        },
{
    let parameters = parameter_map(uri.query);
    law_segments_of_path(uri.path);
    law_schemes_select_levels(uri.scheme);
    law_level_demands(uri.scheme);
    law_pieces_count(parameters["children"@], ',');
    lemma_only_known_iff(uri.query);
    assert(is_pow2(64)) by {
        reveal_with_fuel(is_pow2, 8);
    }
}

proof fn lemma_only_known_iff(query: Seq<(Seq<char>, Seq<char>)>)
    ensures
        parameter_map(query).dom().subset_of(raid_parameters().to_set()) <==> forall|
            name: Seq<char>,
        | #[trigger]
            parameter_map(query).contains_key(name) ==> name == "strip_size"@ || name == "uuid"@
                || name == "children"@,
{
    let parameters = parameter_map(query);
    assert(raid_parameters()[0] == "strip_size"@);
    assert(raid_parameters()[1] == "uuid"@);
    assert(raid_parameters()[2] == "children"@);
    if parameters.dom().subset_of(raid_parameters().to_set()) {
        assert forall|name: Seq<char>| #[trigger] parameters.contains_key(name) implies name
            == "strip_size"@ || name == "uuid"@ || name == "children"@ by {
            assert(parameters.dom().contains(name));
            assert(raid_parameters().contains(name));
        }
    }
    if forall|name: Seq<char>| #[trigger]
        parameters.contains_key(name) ==> name == "strip_size"@ || name == "uuid"@ || name
            == "children"@ {
        assert forall|name: Seq<char>| parameters.dom().contains(name) implies
            raid_parameters().to_set().contains(name) by {
            assert(parameters.contains_key(name));
        }
    }
}

/// A URI is accepted only where its scheme is one of the four, and then the device
/// has the level of that name.
pub proof fn law_scheme_decides_level(uri: UriView, uuid: Result<u128, uuid::Error>)
    ensures
        raid_of(uri, uuid) matches Ok(raid) ==> {
            ||| uri.scheme == "raid0"@ && raid.level.name == "RAID0" && raid.level
                == *RaidLevel::raid0()
            ||| uri.scheme == "raid1"@ && raid.level.name == "RAID1" && raid.level
                == *RaidLevel::raid1()
            ||| uri.scheme == "raid5f"@ && raid.level.name == "RAID5F" && raid.level
                == *RaidLevel::raid5f()
            ||| uri.scheme == "concat"@ && raid.level.name == "CONCAT" && raid.level
                == *RaidLevel::concat()
        },
        !(uri.scheme == "raid0"@ || uri.scheme == "raid1"@ || uri.scheme == "raid5f"@ || uri.scheme
            == "concat"@) ==> raid_of(uri, uuid) == Err::<RaidView, _>(
            BdevErrorView::InvalidUri { uri: uri.text, message: "invalid scheme"@ },
        ),
{
    law_schemes_select_levels(uri.scheme);
}

/// The children of an accepted device are the value of the parameter for them,
/// split at every comma: no child holds a comma, there is one more than there are
/// commas, and joined by commas they are the value again.
pub proof fn law_children_split_at_every_comma(uri: UriView, uuid: Result<u128, uuid::Error>)
    requires
        raid_of(uri, uuid) is Ok,
    ensures
        forall|i: int|
            0 <= i < raid_of(uri, uuid)->Ok_0.disks.len() ==> !(#[trigger] raid_of(
                uri,
                uuid,
            )->Ok_0.disks[i]).contains(','),
        raid_of(uri, uuid)->Ok_0.disks.len() == parameter_map(uri.query)["children"@].filter(
            |c: char| c == ',',
        ).len() + 1,
        joined(raid_of(uri, uuid)->Ok_0.disks, seq![',']) == parameter_map(uri.query)["children"@],
{
    law_pieces_join_back(parameter_map(uri.query)["children"@], ',');
    law_pieces_count(parameter_map(uri.query)["children"@], ',');
}

/// A list of children that is written with commas between them, none of them
/// holding a comma, is the list of children of the accepted device.
pub proof fn law_written_children_are_kept(
    uri: UriView,
    uuid: Result<u128, uuid::Error>,
    children: Seq<Seq<char>>,
)
    requires
        raid_of(uri, uuid) is Ok,
        children.len() >= 1,
        forall|i: int| 0 <= i < children.len() ==> !(#[trigger] children[i]).contains(','),
        parameter_map(uri.query)["children"@] == joined(children, seq![',']),
    ensures
        raid_of(uri, uuid)->Ok_0.disks == children,
{
    law_joined_splits_back(children, ',');
}

/// Where the level stripes and the URI has a strip size, an accepted device has
/// the number that is written there.
pub proof fn law_written_strip_size_is_kept(uri: UriView, uuid: Result<u128, uuid::Error>)
    ensures
        raid_of(uri, uuid) matches Ok(raid) && raid.level.strip_size_required && parameter_map(
            uri.query,
        ).contains_key("strip_size"@) ==> u32_value(parameter_map(uri.query)["strip_size"@]) == Some(
            raid_of(uri, uuid)->Ok_0.strip_size_kb,
        ),
{
}

/// A strip size that a striping level can have, written in decimal, is the strip
/// size of the accepted device.
pub proof fn law_decimal_strip_size_is_kept(
    uri: UriView,
    uuid: Result<u128, uuid::Error>,
    strip_size_kb: u32,
)
    requires
        raid_of(uri, uuid) is Ok,
        uri.scheme == "raid0"@ || uri.scheme == "raid5f"@,
        parameter_map(uri.query).contains_key("strip_size"@),
        parameter_map(uri.query)["strip_size"@] == decimal(strip_size_kb as nat),
    ensures
        raid_of(uri, uuid)->Ok_0.strip_size_kb == strip_size_kb,
{
    law_schemes_select_levels(uri.scheme);
    law_level_demands(uri.scheme);
    law_decimal_reads_back(strip_size_kb);
}

/// What reading the level and the strip size finds first: another scheme, then a
/// path that ends with its leading slash or has none, then a strip size that
/// matters and is no number. Where it finds nothing, the level is that of the
/// scheme, and the strip size is the number that is written, or 64 for the levels
/// that stripe, or 0.
pub proof fn law_geometry_first_fault(uri: UriView)
    ensures
        ({
            let parameters = parameter_map(uri.query);
            let striping = uri.scheme == "raid0"@ || uri.scheme == "raid5f"@;
            let known = striping || uri.scheme == "raid1"@ || uri.scheme == "concat"@;
            let has_path = uri.path.len() >= 2 && uri.path[0] == '/';
            let written = striping && parameters.contains_key("strip_size"@);
            let number = u32_value(parameters["strip_size"@]);
            let geometry = uri_geometry(uri);
            &&& !known ==> geometry == Err::<(RaidLevel, u32), _>(
                BdevErrorView::InvalidUri { uri: uri.text, message: "invalid scheme"@ },
            )
            &&& known && !has_path ==> geometry == Err::<(RaidLevel, u32), _>(
                BdevErrorView::InvalidUri { uri: uri.text, message: "empty path"@ },
            )
            &&& known && has_path && written && number is None ==> geometry == Err::<
                (RaidLevel, u32),
                _,
            >(
                BdevErrorView::IntParamParseFailed {
                    source: u32_error(parameters["strip_size"@]),
                    uri: uri.text,
                    parameter: "strip_size"@,
                    value: parameters["strip_size"@],
                },
            )
            &&& known && has_path && !(written && number is None) ==> {
                &&& geometry is Ok
                &&& geometry->Ok_0.0.name@ == if uri.scheme == "raid0"@ {
                    "RAID0"@
                } else if uri.scheme == "raid1"@ {
                    "RAID1"@
                } else if uri.scheme == "raid5f"@ {
                    "RAID5F"@
                } else {
                    "CONCAT"@
                }
                &&& geometry->Ok_0.1 == if written {
                    number->0
                } else if striping {
                    64u32
                } else {
                    0u32
                }
            }
        }),
{
    law_schemes_select_levels(uri.scheme);
    law_level_demands(uri.scheme);
    law_segments_of_path(uri.path);
}

/// What making the device finds first, once its level and its strip size are
/// known: a UUID that could not be read, then no children, then the rule of the
/// level that is broken, then other parameters. Where it finds nothing, every part
/// of the device is what the URI says.
pub proof fn law_device_first_fault(
    uri: UriView,
    level: RaidLevel,
    strip_size_kb: u32,
    uuid: Result<u128, uuid::Error>,
)
    ensures
        ({
            let parameters = parameter_map(uri.query);
            let named = parameters.contains_key("children"@);
            let count = parameters["children"@].filter(|c: char| c == ',').len() + 1;
            let few = count < level.min_devices;
            let outside = level.strip_size_required && (strip_size_kb < 4 || strip_size_kb > 65536);
            let uneven = level.strip_size_required && !is_pow2(strip_size_kb as int);
            let others = !(forall|name: Seq<char>| #[trigger]
                parameters.contains_key(name) ==> name == "strip_size"@ || name == "uuid"@ || name
                    == "children"@);
            let made = raid_with(uri, level, strip_size_kb, uuid);
            &&& uuid matches Err(source) ==> made == Err::<RaidView, _>(
                BdevErrorView::UuidParamParseFailed { source, uri: uri.text },
            )
            &&& uuid is Ok && !named ==> made == Err::<RaidView, _>(
                BdevErrorView::InvalidUri {
                    uri: uri.text,
                    message: "'children' must be specified"@,
                },
            )
            &&& uuid is Ok && named && few ==> made == Err::<RaidView, _>(
                BdevErrorView::InvalidUri {
                    uri: uri.text,
                    message: "Needs at least "@ + decimal(level.min_devices as nat) + " devices"@,
                },
            )
            &&& uuid is Ok && named && !few && outside ==> made == Err::<RaidView, _>(
                BdevErrorView::InvalidUri {
                    uri: uri.text,
                    message: "Strip size "@ + decimal(strip_size_kb as nat)
                        + "KB out of range [4, 65536]"@,
                },
            )
            &&& uuid is Ok && named && !few && !outside && uneven ==> made == Err::<RaidView, _>(
                BdevErrorView::InvalidUri {
                    uri: uri.text,
                    message: "Strip size "@ + decimal(strip_size_kb as nat)
                        + "KiB must be power of 2"@,
                },
            )
            &&& uuid is Ok && named && !few && !outside && !uneven && others ==> made == Err::<
                RaidView,
                _,
            >(
                BdevErrorView::InvalidUri {
                    uri: uri.text,
                    message: "unrecognized parameters: "@ + joined(
                        unknown_names(uri.query, seq!["strip_size"@, "uuid"@, "children"@]),
                        ", "@,
                    ),
                },
            )
            &&& uuid is Ok && named && !few && !outside && !uneven && !others ==> {
                &&& made is Ok
                &&& made->Ok_0.name == uri.path.skip(1)
                &&& made->Ok_0.alias == uri.text
                &&& made->Ok_0.disks.len() == count
                &&& forall|i: int|
                    0 <= i < count ==> !(#[trigger] made->Ok_0.disks[i]).contains(',')
                &&& joined(made->Ok_0.disks, seq![',']) == parameters["children"@]
                &&& made->Ok_0.strip_size_kb == strip_size_kb
                &&& made->Ok_0.uuid == uuid->Ok_0
                &&& made->Ok_0.level == level
            }
        }),
{
    let children = parameter_map(uri.query)["children"@];
    law_pieces_count(children, ',');
    law_pieces_join_back(children, ',');
    law_objection_names_first_broken_rule(level, pieces(children, ',').len(), strip_size_kb);
    lemma_only_known_iff(uri.query);
}

/// A URI is read in two steps: first its level and its strip size, and only where
/// they can be had, the rest.
pub proof fn law_device_in_two_steps(uri: UriView, uuid: Result<u128, uuid::Error>)
    ensures
        uri_geometry(uri) matches Err(error) ==> raid_of(uri, uuid) == Err::<RaidView, _>(error),
        uri_geometry(uri) matches Ok(geometry) ==> raid_of(uri, uuid) == raid_with(
            uri,
            geometry.0,
            geometry.1,
            uuid,
        ),
{
}

/// The device of an accepted URI is named by the path without its leading slash
/// and has the whole URI as its alias; its children, joined by commas, are the
/// value of the parameter for them; its level is that of the scheme; its UUID is
/// the one that was given.
pub proof fn law_accepted_device_mirrors_uri(uri: UriView, uuid: Result<u128, uuid::Error>)
    requires
        raid_of(uri, uuid) is Ok,
    ensures
        seq!['/'] + raid_of(uri, uuid)->Ok_0.name == uri.path,
        raid_of(uri, uuid)->Ok_0.alias == uri.text,
        joined(raid_of(uri, uuid)->Ok_0.disks, seq![',']) == parameter_map(uri.query)["children"@],
        scheme_level(uri.scheme) == Some(raid_of(uri, uuid)->Ok_0.level),
        uuid == Ok::<_, uuid::Error>(raid_of(uri, uuid)->Ok_0.uuid),
{
    law_segments_of_path(uri.path);
    law_pieces_join_back(parameter_map(uri.query)["children"@], ',');
    assert(seq!['/'] + uri.path.skip(1) == uri.path);
}

/// The device of an accepted URI has a name and obeys the rules of its level.
pub proof fn law_accepted_device_is_valid(uri: UriView, uuid: Result<u128, uuid::Error>)
    ensures
        raid_of(uri, uuid) matches Ok(raid) ==> raid.valid(),
        raid_of(uri, uuid) matches Ok(raid) ==> {
            &&& raid.name.len() > 0
            &&& raid.disks.len() >= raid.level.min_devices
            &&& raid.level.strip_size_required ==> strip_size_ok(raid.strip_size_kb)
            &&& raid.level.strip_size_required ==> 4 <= raid.strip_size_kb <= 65536 && is_pow2(
                raid.strip_size_kb as int,
            )
            &&& !raid.level.strip_size_required ==> raid.strip_size_kb == 0
        },
{
    law_schemes_select_levels(uri.scheme);
    law_level_demands(uri.scheme);
    law_segments_of_path(uri.path);
}

/// The UUID of a device that was made from a URI is the one that the URI gives,
/// and where it gives none, one that the random source gave: never a number of
/// the library's own choosing, whatever the level.
pub proof fn law_uuid_is_given_or_drawn(uri: &Uri, made: Result<Raid, BdevError>)
    requires
        call_ensures(<Raid as TryFrom<&Uri>>::try_from, (uri,), made),
        made is Ok,
    ensures
        (exists|i: int| 0 <= i < uri.query@.len() && (#[trigger] uri.query@[i]).0@ == "uuid"@)
            ==> parsed_uuid(parameter_map(uri@.query)["uuid"@]) == Ok::<_, uuid::Error>(
            made->Ok_0.uuid,
        ),
        (forall|i: int| 0 <= i < uri.query@.len() ==> (#[trigger] uri.query@[i]).0@ != "uuid"@)
            ==> drawn(made->Ok_0.uuid),
{
}

/// The debug text of a device shows the name of its level, its own name, its
/// strip size as a decimal number, and every child in its order, each quoted.
pub proof fn law_debug_text(raid: RaidView)
    ensures
        raid_debug(raid) == "Raid"@ + raid.level.name@ + " '"@ + raid.name + "' (strip_size: "@
            + decimal(raid.strip_size_kb as nat) + "KB) <= ["@ + joined(
            Seq::new(raid.disks.len(), |i: int| quoted(raid.disks[i])),
            ", "@,
        ) + "]"@,
{
    assert(raid.disks.map_values(|disk: Seq<char>| quoted(disk)) == Seq::new(
        raid.disks.len(),
        |i: int| quoted(raid.disks[i]),
    ));
}

/// Without a parameter for it, the strip size of an accepted device is the
/// default of its level.
pub proof fn law_default_strip_size(uri: UriView, uuid: Result<u128, uuid::Error>)
    requires
        !parameter_map(uri.query).contains_key("strip_size"@),
    ensures
        raid_of(uri, uuid) matches Ok(raid) ==> raid.strip_size_kb
            == raid.level.default_strip_size_kb,
{
}

/// What is accepted, and which device comes of it but for its alias, depends on
/// the values of the parameters alone: neither on their order nor on values that
/// a later one replaces.
pub proof fn law_only_parameter_values_count(
    one: UriView,
    other: UriView,
    uuid: Result<u128, uuid::Error>,
)
    requires
        one.scheme == other.scheme,
        one.path == other.path,
        parameter_map(one.query) == parameter_map(other.query),
    ensures
        raid_of(one, uuid) is Ok <==> raid_of(other, uuid) is Ok,
        raid_of(one, uuid) is Ok ==> raid_of(one, uuid)->Ok_0 == (RaidView {
            alias: one.text,
            ..raid_of(other, uuid)->Ok_0
        }),
{
}

/// Where the level does not stripe, a strip size makes no difference but in the
/// alias: neither whether there is one, nor what it says, though it be no
/// number.
pub proof fn law_strip_size_makes_no_difference(
    one: UriView,
    other: UriView,
    uuid: Result<u128, uuid::Error>,
)
    requires
        scheme_level(one.scheme) matches Some(level) && !level.strip_size_required,
        one.scheme == other.scheme,
        one.path == other.path,
        parameter_map(one.query).remove("strip_size"@) == parameter_map(other.query).remove(
            "strip_size"@,
        ),
    ensures
        raid_of(one, uuid) is Ok <==> raid_of(other, uuid) is Ok,
        raid_of(one, uuid) is Ok ==> raid_of(one, uuid)->Ok_0 == (RaidView {
            alias: one.text,
            ..raid_of(other, uuid)->Ok_0
        }),
{
    if raid_of(one, uuid) is Ok {
        lemma_accepted_without_strip_size(one, other, uuid);
    }
    if raid_of(other, uuid) is Ok {
        lemma_accepted_without_strip_size(other, one, uuid);
    }
}

proof fn lemma_accepted_without_strip_size(
    one: UriView,
    other: UriView,
    uuid: Result<u128, uuid::Error>,
)
    requires
        scheme_level(one.scheme) matches Some(level) && !level.strip_size_required,
        one.scheme == other.scheme,
        one.path == other.path,
        parameter_map(one.query).remove("strip_size"@) == parameter_map(other.query).remove(
            "strip_size"@,
        ),
        raid_of(one, uuid) is Ok,
    ensures
        raid_of(other, uuid) is Ok,
        raid_of(one, uuid)->Ok_0 == (RaidView {
            alias: one.text,
            ..raid_of(other, uuid)->Ok_0
        }),
{
    let first = parameter_map(one.query);
    let second = parameter_map(other.query);
    assert("children"@ != "strip_size"@) by {
        reveal_strlit("children");
        reveal_strlit("strip_size");
        assert("children"@.len() != "strip_size"@.len());
    }
    assert(first.remove("strip_size"@).contains_key("children"@));
    assert(second.remove("strip_size"@)["children"@] == first.remove("strip_size"@)["children"@]);
    assert forall|name: Seq<char>| second.dom().contains(name) implies raid_parameters().to_set().contains(
        name,
    ) by {
        if name == "strip_size"@ {
            assert(raid_parameters()[0] == name);
        } else {
            assert(second.remove("strip_size"@).contains_key(name));
            assert(first.remove("strip_size"@).contains_key(name));
            assert(first.dom().contains(name));
        }
    }
}

} // verus!
