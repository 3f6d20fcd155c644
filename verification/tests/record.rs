//! Texts read by the library and by a decoder of the form that serde's derive
//! gives to structs with the same fields: they find the same wrong with a text,
//! or both find nothing wrong.

use std::fmt;

use prawn::source::nws::{parse_observations, parse_station};
use prawn::source::{awc, synoptic, Fault};
use serde::de::{DeserializeSeed, Error, IgnoredAny, MapAccess, SeqAccess, Visitor};
use serde::{Deserialize, Deserializer};
use serde_json::Value;

enum Kind {
    Text,
    Number,
    Integer,
    Any,
    List(&'static Kind),
    Table(&'static Kind),
    Record(&'static Schema),
    Maybe(&'static Kind),
}

/// Whether a field may be left out of an object, and out of an array.
#[derive(Clone, Copy, PartialEq)]
enum Need {
    Required,
    Optional,
    Defaulted,
}

use Kind::{Any, Integer, List, Maybe, Number, Record, Table, Text};
use Need::{Defaulted, Optional, Required};

struct Schema {
    name: &'static str,
    title: &'static str,
    elements: &'static str,
    fields: &'static [(&'static str, Need, Kind)],
}

impl<'de> DeserializeSeed<'de> for &'static Kind {
    type Value = ();

    fn deserialize<D: Deserializer<'de>>(self, d: D) -> Result<(), D::Error> {
        match self {
            Text => String::deserialize(d).map(drop),
            Number => f64::deserialize(d).map(drop),
            Integer => i64::deserialize(d).map(drop),
            Any => Value::deserialize(d).map(drop),
            List(kind) => d.deserialize_seq(ListVisitor(kind)),
            Table(kind) => d.deserialize_map(TableVisitor(kind)),
            Record(schema) => d.deserialize_struct(schema.name, &[], RecordVisitor(schema)),
            Maybe(kind) => d.deserialize_option(MaybeVisitor(kind)),
        }
    }
}

struct ListVisitor(&'static Kind);

impl<'de> Visitor<'de> for ListVisitor {
    type Value = ();

    fn expecting(&self, f: &mut fmt::Formatter) -> fmt::Result {
        f.write_str("a sequence")
    }

    fn visit_seq<A: SeqAccess<'de>>(self, mut seq: A) -> Result<(), A::Error> {
        while seq.next_element_seed(self.0)?.is_some() {}
        Ok(())
    }
}

struct TableVisitor(&'static Kind);

impl<'de> Visitor<'de> for TableVisitor {
    type Value = ();

    fn expecting(&self, f: &mut fmt::Formatter) -> fmt::Result {
        f.write_str("a map")
    }

    fn visit_map<A: MapAccess<'de>>(self, mut map: A) -> Result<(), A::Error> {
        while map.next_key::<String>()?.is_some() {
            map.next_value_seed(self.0)?;
        }
        Ok(())
    }
}

struct MaybeVisitor(&'static Kind);

impl<'de> Visitor<'de> for MaybeVisitor {
    type Value = ();

    fn expecting(&self, f: &mut fmt::Formatter) -> fmt::Result {
        f.write_str("option")
    }

    fn visit_none<E: Error>(self) -> Result<(), E> {
        Ok(())
    }

    fn visit_unit<E: Error>(self) -> Result<(), E> {
        Ok(())
    }

    fn visit_some<D: Deserializer<'de>>(self, d: D) -> Result<(), D::Error> {
        self.0.deserialize(d)
    }
}

struct RecordVisitor(&'static Schema);

impl<'de> Visitor<'de> for RecordVisitor {
    type Value = ();

    fn expecting(&self, f: &mut fmt::Formatter) -> fmt::Result {
        f.write_str(self.0.title)
    }

    fn visit_seq<A: SeqAccess<'de>>(self, mut seq: A) -> Result<(), A::Error> {
        for (k, (_, need, kind)) in self.0.fields.iter().enumerate() {
            if seq.next_element_seed(kind)?.is_none() && *need != Defaulted {
                return Err(A::Error::invalid_length(k, &self.0.elements));
            }
        }
        Ok(())
    }

    fn visit_map<A: MapAccess<'de>>(self, mut map: A) -> Result<(), A::Error> {
        let mut seen = vec![false; self.0.fields.len()];
        while let Some(key) = map.next_key::<String>()? {
            match self.0.fields.iter().position(|(name, _, _)| *name == key) {
                Some(k) if seen[k] => return Err(A::Error::duplicate_field(self.0.fields[k].0)),
                Some(k) => {
                    map.next_value_seed(&self.0.fields[k].2)?;
                    seen[k] = true;
                }
                None => {
                    map.next_value::<IgnoredAny>()?;
                }
            }
        }
        for ((name, need, _), seen) in self.0.fields.iter().zip(seen) {
            if *need == Required && !seen {
                return Err(A::Error::missing_field(name));
            }
        }
        Ok(())
    }
}

const MAYBE_TEXT: Kind = Maybe(&Text);
const MAYBE_NUMBER: Kind = Maybe(&Number);

const QUANTITY: Schema = Schema {
    name: "Quantity",
    title: "struct Quantity",
    elements: "struct Quantity with 3 elements",
    fields: &[
        ("unitCode", Optional, MAYBE_TEXT),
        ("value", Optional, MAYBE_NUMBER),
        ("qualityControl", Optional, MAYBE_TEXT),
    ],
};

const MAYBE_QUANTITY: Kind = Maybe(&Record(&QUANTITY));

const STATION_PROPS: Schema = Schema {
    name: "StationProps",
    title: "struct StationProps",
    elements: "struct StationProps with 3 elements",
    fields: &[
        ("stationIdentifier", Optional, MAYBE_TEXT),
        ("name", Optional, MAYBE_TEXT),
        ("elevation", Optional, MAYBE_QUANTITY),
    ],
};

const GEOMETRY: Schema = Schema {
    name: "Geometry",
    title: "struct Geometry",
    elements: "struct Geometry with 1 element",
    fields: &[("coordinates", Optional, Maybe(&List(&Number)))],
};

const STATION_DOC: Kind = Record(&Schema {
    name: "StationDoc",
    title: "struct StationDoc",
    elements: "struct StationDoc with 2 elements",
    fields: &[
        ("properties", Required, Record(&STATION_PROPS)),
        ("geometry", Optional, Maybe(&Record(&GEOMETRY))),
    ],
});

const LAYER: Schema = Schema {
    name: "Layer",
    title: "struct Layer",
    elements: "struct Layer with 2 elements",
    fields: &[("base", Optional, MAYBE_QUANTITY), ("amount", Optional, MAYBE_TEXT)],
};

const WEATHER: Schema = Schema {
    name: "Weather",
    title: "struct Weather",
    elements: "struct Weather with 1 element",
    fields: &[("rawString", Optional, MAYBE_TEXT)],
};

const PROPS: Schema = Schema {
    name: "Props",
    title: "struct Props",
    elements: "struct Props with 16 elements",
    fields: &[
        ("timestamp", Optional, MAYBE_TEXT),
        ("rawMessage", Optional, MAYBE_TEXT),
        ("temperature", Optional, MAYBE_QUANTITY),
        ("dewpoint", Optional, MAYBE_QUANTITY),
        ("windDirection", Optional, MAYBE_QUANTITY),
        ("windSpeed", Optional, MAYBE_QUANTITY),
        ("windGust", Optional, MAYBE_QUANTITY),
        ("barometricPressure", Optional, MAYBE_QUANTITY),
        ("seaLevelPressure", Optional, MAYBE_QUANTITY),
        ("visibility", Optional, MAYBE_QUANTITY),
        ("relativeHumidity", Optional, MAYBE_QUANTITY),
        ("precipitationLastHour", Optional, MAYBE_QUANTITY),
        ("precipitationLast3Hours", Optional, MAYBE_QUANTITY),
        ("precipitationLast6Hours", Optional, MAYBE_QUANTITY),
        ("cloudLayers", Optional, Maybe(&List(&Record(&LAYER)))),
        ("presentWeather", Optional, Maybe(&List(&Record(&WEATHER)))),
    ],
};

const FEATURE: Schema = Schema {
    name: "Feature",
    title: "struct Feature",
    elements: "struct Feature with 1 element",
    fields: &[("properties", Required, Record(&PROPS))],
};

const COLLECTION: Kind = Record(&Schema {
    name: "Collection",
    title: "struct Collection",
    elements: "struct Collection with 1 element",
    fields: &[("features", Defaulted, List(&Record(&FEATURE)))],
});

const SUMMARY: Schema = Schema {
    name: "SynSummary",
    title: "struct SynSummary",
    elements: "struct SynSummary with 2 elements",
    fields: &[("RESPONSE_CODE", Required, Integer), ("RESPONSE_MESSAGE", Defaulted, Text)],
};

const STATION: Schema = Schema {
    name: "SynStation",
    title: "struct SynStation",
    elements: "struct SynStation with 6 elements",
    fields: &[
        ("STID", Required, Text),
        ("NAME", Optional, MAYBE_TEXT),
        ("LATITUDE", Optional, Maybe(&Any)),
        ("LONGITUDE", Optional, Maybe(&Any)),
        ("ELEVATION", Optional, Maybe(&Any)),
        ("OBSERVATIONS", Optional, Maybe(&Table(&List(&Any)))),
    ],
};

const RESPONSE: Kind = Record(&Schema {
    name: "SynResponse",
    title: "struct SynResponse",
    elements: "struct SynResponse with 3 elements",
    fields: &[
        ("SUMMARY", Required, Record(&SUMMARY)),
        ("UNITS", Optional, Maybe(&Table(&Text))),
        ("STATION", Optional, Maybe(&List(&Record(&STATION)))),
    ],
});

const CLOUD: Schema = Schema {
    name: "AwcCloud",
    title: "struct AwcCloud",
    elements: "struct AwcCloud with 2 elements",
    fields: &[("cover", Optional, MAYBE_TEXT), ("base", Optional, MAYBE_NUMBER)],
};

const METARS: Kind = List(&Record(&Schema {
    name: "AwcMetar",
    title: "struct AwcMetar",
    elements: "struct AwcMetar with 25 elements",
    fields: &[
        ("icaoId", Required, Text),
        ("receiptTime", Optional, MAYBE_TEXT),
        ("obsTime", Optional, Maybe(&Integer)),
        ("reportTime", Optional, MAYBE_TEXT),
        ("temp", Optional, MAYBE_NUMBER),
        ("dewp", Optional, MAYBE_NUMBER),
        ("wdir", Optional, Maybe(&Any)),
        ("wspd", Optional, MAYBE_NUMBER),
        ("wgst", Optional, MAYBE_NUMBER),
        ("visib", Optional, Maybe(&Any)),
        ("altim", Optional, MAYBE_NUMBER),
        ("slp", Optional, MAYBE_NUMBER),
        ("wxString", Optional, MAYBE_TEXT),
        ("precip", Optional, MAYBE_NUMBER),
        ("pcp3hr", Optional, MAYBE_NUMBER),
        ("pcp6hr", Optional, MAYBE_NUMBER),
        ("pcp24hr", Optional, MAYBE_NUMBER),
        ("snow", Optional, MAYBE_NUMBER),
        ("metarType", Optional, MAYBE_TEXT),
        ("rawOb", Optional, MAYBE_TEXT),
        ("lat", Optional, MAYBE_NUMBER),
        ("lon", Optional, MAYBE_NUMBER),
        ("elev", Optional, MAYBE_NUMBER),
        ("name", Optional, MAYBE_TEXT),
        ("clouds", Optional, Maybe(&List(&Record(&CLOUD)))),
    ],
}));

fn decode(kind: &'static Kind, text: &str) -> Option<String> {
    let mut source = serde_json::Deserializer::from_str(text);
    let read = kind.deserialize(&mut source).and_then(|()| source.end());
    read.err().map(|e| e.to_string())
}

fn check(text: &str, theirs: Option<String>, ours: Option<Fault>, what: &str) {
    let theirs = theirs.map(|why| format!("{what}: {why}"));
    assert_eq!(ours.map(|fault| fault.message()), theirs, "{text}");
}

fn compare_station(text: &str) {
    let ours = parse_station("?", text).err();
    check(text, decode(&STATION_DOC, text), ours, "decoding NWS station");
}

fn compare_rows(text: &str) {
    let ours = parse_observations("?", text).err();
    check(text, decode(&COLLECTION, text), ours, "decoding NWS observations");
}

fn compare_response(text: &str) {
    let ours = synoptic::parse_body("?", text).err();
    let theirs = decode(&RESPONSE, text);
    if theirs.is_some() || ours.as_ref().is_some_and(|f| f.message().starts_with("decoding")) {
        check(text, theirs, ours, "decoding Synoptic response");
    }
}

fn compare_metars(text: &str) {
    let ours = awc::parse_body("?", text).err();
    match serde_json::from_str::<Value>(text) {
        Ok(value) if value.is_array() => {
            let theirs = (&METARS).deserialize(value).err().map(|e| e.to_string());
            check(text, theirs, ours, "decoding AWC METAR records");
        }
        Ok(_) => assert!(ours.is_some()),
        Err(why) => check(text, Some(why.to_string()), ours, "AWC response is not JSON"),
    }
}

/// The text, and what it becomes where something is cut off, left out, put in
/// or replaced.
fn vary(body: &str, compare: fn(&str)) {
    compare(body);
    let places: Vec<usize> = (0..=body.len()).filter(|n| body.is_char_boundary(*n)).collect();
    let bits = [
        ",", ":", "}", "]", "{", "[", "\"", "x", "1", "-", "null", "true", "1e999", "\"\\ud800\"",
        "\n", " ", "{}", "[]", "\\", "\"name\":\"N\",", "\"name\":7,", "\"geometry\":0,", "[null],",
        "\"value\":false,", "\"properties\":{},", "\u{1}", "é", "0.5,", "{\"a\":1,}", "\"base\":0,",
        "\"UNITS\":{},", "\"STID\":\"a map\",", "\"temp\":\"a map\",", "\"features\":[],",
    ];
    let values = ["7", "\"s\"", "null", "[]", "{}", "true", "1.5", "-1e999", "[1,2,3,4]"];
    for (k, n) in places.iter().enumerate() {
        compare(&body[..*n]);
        for bit in bits {
            compare(&format!("{}{bit}{}", &body[..*n], &body[*n..]));
        }
        for len in [1, 2, 3, 5, 8, 13, 21] {
            if let Some(end) = places.get(k + len) {
                compare(&format!("{}{}", &body[..*n], &body[*end..]));
                for value in values {
                    compare(&format!("{}{value}{}", &body[..*n], &body[*end..]));
                }
            }
        }
    }
}

#[test]
fn stations_are_decoded_alike() {
    vary(
        r#"{"properties":{"stationIdentifier":"K","elevation":{"unitCode":"u","value":3}}}"#,
        compare_station,
    );
    vary(
        "{\n \"x\" : [1, {\"y\":null}, \"\\u00e9\"],\n \"geometry\":{\"coordinates\":[ -80.3 , 25.8 ]},\n \"properties\":{}\n}\n",
        compare_station,
    );
    vary(r#"[["K",null,["u",1.5e1,"V"]],[[1,2]]]"#, compare_station);
}

#[test]
fn observations_are_decoded_alike() {
    vary(
        r#"{"type":"F","features":[{"id":1,"properties":{"timestamp":"T","windSpeed":{"value":null}}}]}"#,
        compare_rows,
    );
    vary(
        "{\"features\":[\n{\"properties\":{\"cloudLayers\":[{\"base\":{},\"amount\":\"B\"}],\"presentWeather\":[[null]]}}]}",
        compare_rows,
    );
    vary(
        "[[[[null,\"é\",[\"u\",1,null],null,null,null,null,null,null,null,null,null,null,null,[],null]]]]",
        compare_rows,
    );
}

#[test]
fn responses_are_decoded_alike() {
    vary(
        r#"{"SUMMARY":{"RESPONSE_CODE":1,"RESPONSE_MESSAGE":"OK"},"UNITS":{"a":"b"}}"#,
        compare_response,
    );
    vary(
        r#"{"STATION":[{"STID":"A","LATITUDE":"1","OBSERVATIONS":{"t":[1,null,[]]}}],"SUMMARY":[1]}"#,
        compare_response,
    );
    vary(r#"[[1,"m"],null,[["A",null,1,{},"2",null]]]"#, compare_response);
}

#[test]
fn deep_values_are_decoded_alike() {
    for depth in 118..132 {
        for (open, close) in [("[", "]"), ("{\"a\":", "}")] {
            let value = open.repeat(depth) + "1" + &close.repeat(depth);
            let faulty = open.repeat(depth) + "1";
            for value in [value, faulty, "[".repeat(depth), "[1 ".to_owned() + &"[".repeat(depth)] {
                compare_response(&format!(
                    r#"{{"SUMMARY":[1],"STATION":[{{"STID":"A","LATITUDE": {value}}}]}}"#
                ));
                compare_response(&format!(
                    "{{\"SUMMARY\":[1],\"STATION\":[{{\"STID\":\"A\",\n\"OBSERVATIONS\":{{\"t\":[1,\n{value}]}}}}]}}"
                ));
                compare_response(&format!(r#"{{"SUMMARY":[1],"other":{value}}}"#));
                compare_metars(&format!(r#"[{{"icaoId":"K","wdir":{value}}}]"#));
            }
        }
    }
}

#[test]
fn metars_are_decoded_alike() {
    vary(r#"[{"icaoId":"K","obsTime":5,"temp":1.5,"wdir":"VRB","name":null}]"#, compare_metars);
    vary(
        r#"[{"icaoId":"K","clouds":[{"cover":"FEW","base":300},["BKN",null]],"wxString":"RA"}]"#,
        compare_metars,
    );
    vary(
        r#"[["K",null,1,null,null,2,{},3,null,[],null,null,"",null,0,0,0,0,"M",null,1,2,3,"N",[]]]"#,
        compare_metars,
    );
}
