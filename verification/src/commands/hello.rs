use crate::commands::parse::{optional_text, outcome, Request, RequestView};
use crate::util::convert::{blob, reply, AsFrame, Frame, FrameView};
use crate::util::errors::ProtocolError;
use crate::util::table::{entry_frames, Table};
use crate::util::text::{all_to_uppercase, str_eq, texts, uppercased};
use vstd::pervasive::unreached;
use vstd::prelude::*;
use vstd::string::*;

verus! {

/// A property that the reply to `HELLO` can hold.
#[derive(Debug)]
pub enum Property {
    String(String),
    Integer(i64),
    Array(Vec<Property>),
}

/// The reply tree of a property: a text is a byte-string leaf, a number an
/// integer leaf, a list the sequence of the reply trees of its items.
pub open spec fn property_frame(property: &Property) -> FrameView
    decreases property,
{
    match property {
        Property::String(text) => blob(text@),
        Property::Integer(number) => FrameView::Number(*number as int),
        Property::Array(items) => FrameView::Array(
            Seq::new(
                items.len() as nat,
                |i: int|
                    if 0 <= i < items.len() {
                        property_frame(&items[i])
                    } else {
                        FrameView::Null
                    },
            ),
        ),
    }
}

/// Turns a property into its reply tree.
fn property_to_frame(property: &Property) -> (frame: Frame)
    ensures
        frame@ == property_frame(property),
    decreases property,
{
    match property {
        Property::String(text) => text.as_frame(),
        Property::Integer(number) => number.as_frame(),
        Property::Array(items) => {
            let mut frames: Vec<Frame> = Vec::new();
            let mut i: usize = 0;
            while i < items.len()
                invariant
                    i <= items.len(),
                    frames.len() == i,
                    decreases_to!(property => *items),
                    forall|j: int| 0 <= j < i ==> frames[j]@ == property_frame(&items[j]),
                decreases items.len() - i,
            {
                frames.push(property_to_frame(&items[i]));
                i += 1;
            }
            let frame = Frame::Array(frames);
            assert(frame@->Array_0 =~= property_frame(property)->Array_0);
            frame
        },
    }
}

impl AsFrame for Property {
    open spec fn frame_view(&self) -> FrameView {
        property_frame(self)
    }

    fn as_frame(&self) -> (frame: Frame) {
        property_to_frame(self)
    }
}

/// The fields of a `HELLO` request, while its arguments are read.
pub struct Fields {
    pub version: Option<Seq<char>>,
    pub clientname: Option<Seq<char>>,
    pub auth: Option<(Seq<char>, Seq<char>)>,
}

/// Whether a token in upper case is one of the keywords of `HELLO`.
pub open spec fn is_keyword(upper: Seq<char>) -> bool {
    upper == "AUTH"@ || upper == "SETNAME"@
}

/// What the keywords from a place on come to. `AUTH` takes the two tokens
/// behind it as user name and password, `SETNAME` the one behind it as the
/// connection's name; a later one replaces an earlier one. A keyword whose
/// tokens are not all there ends the reading and sets nothing. Any other
/// token is a failure that names the token.
pub open spec fn keywords(
    args: Seq<Seq<char>>,
    upper: Seq<Seq<char>>,
    from: int,
    fields: Fields,
) -> Result<RequestView, Seq<char>>
    decreases args.len() - from,
{
    if from < 0 || from >= args.len() {
        Ok(
            RequestView::HELLO {
                version: fields.version,
                clientname: fields.clientname,
                auth: fields.auth,
            },
        )
    } else if upper[from] == "AUTH"@ {
        if from + 2 < args.len() {
            keywords(
                args,
                upper,
                from + 3,
                Fields { auth: Some((args[from + 1], args[from + 2])), ..fields },
            )
        } else {
            keywords(args, upper, args.len() as int, fields)
        }
    } else if upper[from] == "SETNAME"@ {
        if from + 1 < args.len() {
            keywords(args, upper, from + 2, Fields { clientname: Some(args[from + 1]), ..fields })
        } else {
            keywords(args, upper, args.len() as int, fields)
        }
    } else {
        Err("Unknown argument: "@ + args[from])
    }
}

/// What the arguments of `HELLO` come to, given each of them in upper case
/// too. The first argument is the protocol version unless it is a keyword;
/// keywords make up the rest.
pub open spec fn parsed(args: Seq<Seq<char>>, upper: Seq<Seq<char>>) -> Result<
    RequestView,
    Seq<char>,
> {
    let none = Fields { version: None, clientname: None, auth: None };
    if args.len() == 0 || is_keyword(upper[0]) {
        keywords(args, upper, 0, none)
    } else {
        keywords(args, upper, 1, Fields { version: Some(args[0]), ..none })
    }
}

/// Parses the arguments of `HELLO`, given each of them in upper case too.
pub fn parse_keywords(args: Vec<String>, upper: &Vec<String>) -> (result: Result<
    Request,
    ProtocolError,
>)
    requires
        upper.len() == args.len(),
    ensures
        outcome(result) == parsed(texts(args@), texts(upper@)),
{
    let mut version: Option<String> = None;
    let mut auth: Option<(String, String)> = None;
    let mut clientname: Option<String> = None;
    let mut i: usize = 0;
    if args.len() > 0 && !(str_eq(upper[0].as_str(), "AUTH") || str_eq(
        upper[0].as_str(),
        "SETNAME",
    )) {
        version = Some(args[0].clone());
        i = 1;
    }
    let ghost all = texts(args@);
    let ghost caps = texts(upper@);
    while i < args.len()
        invariant
            i <= args.len(),
            upper.len() == args.len(),
            all == texts(args@),
            caps == texts(upper@),
            parsed(all, caps) == keywords(
                all,
                caps,
                i as int,
                Fields {
                    version: optional_text(version),
                    clientname: optional_text(clientname),
                    auth: match auth {
                        Some((username, password)) => Some((username@, password@)),
                        None => None,
                    },
                },
            ),
        decreases args.len() - i,
    {
        if str_eq(upper[i].as_str(), "AUTH") {
            if args.len() - i > 2 {
                auth = Some((args[i + 1].clone(), args[i + 2].clone()));
                i += 3;
            } else {
                i = args.len();
            }
        } else if str_eq(upper[i].as_str(), "SETNAME") {
            if args.len() - i > 1 {
                clientname = Some(args[i + 1].clone());
                i += 2;
            } else {
                i = args.len();
            }
        } else {
            let mut details = String::from_str("Unknown argument: ");
            details.append(args[i].as_str());
            return Err(ProtocolError::new(details));
        }
    }
    Ok(Request::HELLO { version, clientname, auth })
}

/// Parses the arguments of `HELLO`: an optional protocol version, then
/// keywords in any case, each with its own arguments.
pub fn parse(args: Vec<String>) -> (result: Result<Request, ProtocolError>)
    ensures
        outcome(result) == parsed(texts(args@), uppercased(texts(args@))),
{
    let upper = all_to_uppercase(args.as_slice());
    assert(upper.len() == args.len()) by {
        assert(texts(upper@).len() == uppercased(texts(args@)).len());
    }
    parse_keywords(args, &upper)
}

/// The one protocol version that is supported.
pub open spec fn supported_version() -> Seq<char> {
    "3"@
}

/// The reply to `HELLO`: the properties, if the version asked for is the
/// supported one or none was asked for; else a failure that names the
/// version asked for.
pub open spec fn handled(properties: FrameView, version: Option<Seq<char>>) -> Result<
    FrameView,
    Seq<char>,
> {
    let asked = match version {
        Some(version) => version,
        None => supported_version(),
    };
    if asked == supported_version() {
        Ok(properties)
    } else {
        Err("Unknown protocol version: "@ + asked)
    }
}

/// Handles `HELLO` with the given properties.
pub fn handle(values: &Table<Property>, args: Request) -> (result: Result<Frame, ProtocolError>)
    requires
        args is HELLO,
    ensures
        reply(result) == handled(values.frame_view(), args@->HELLO_version),
{
    match args {
        Request::HELLO { version, .. } => {
            let v: String = match version {
                Some(version) => version,
                None => String::from_str("3"),
            };
            if str_eq("3", v.as_str()) {
                Ok(values.as_frame())
            } else {
                let mut details = String::from_str("Unknown protocol version: ");
                details.append(v.as_str());
                Err(ProtocolError::new(details))
            }
        },
        _ => unreached(),
    }
}

/// The default properties as a reply: the server's name, the protocol
/// version and the list of modules, which is empty.
pub open spec fn default_properties() -> FrameView {
    FrameView::Mapping(
        seq![
            (blob("server"@), blob("RRedis"@)),
            (blob("proto"@), FrameView::Number(3)),
            (blob("modules"@), FrameView::Array(Seq::empty())),
        ],
    )
}

/// Handles `HELLO` with the default properties.
pub fn default_handle(args: Request) -> (result: Result<Frame, ProtocolError>)
    requires
        args is HELLO,
    ensures
        reply(result) == handled(default_properties(), args@->HELLO_version),
{
    proof {
        reveal_strlit("server");
        reveal_strlit("proto");
        reveal_strlit("modules");
    }
    let mut default_values: Table<Property> = Table::new();
    default_values.insert(String::from_str("server"), Property::String(String::from_str("RRedis")));
    default_values.insert(String::from_str("proto"), Property::Integer(3));
    default_values.insert(String::from_str("modules"), Property::Array(Vec::new()));
    assert(entry_frames(default_values) =~= default_properties()->Mapping_0) by {
        assert(default_values.values()[2].frame_view()->Array_0 =~= Seq::<FrameView>::empty());
    }
    handle(&default_values, args)
}

/// Without a version the supported one is taken and handling succeeds; it
/// succeeds for the supported version too. Any other version fails with a
/// message that names the version asked for.
pub proof fn lemma_only_the_supported_version(properties: FrameView, version: Option<Seq<char>>)
    ensures
        version is None || version == Some(supported_version()) ==> handled(properties, version)
            == Ok::<FrameView, Seq<char>>(properties),
        version is Some && version->0 != supported_version() ==> handled(properties, version)
            == Err::<FrameView, Seq<char>>("Unknown protocol version: "@ + version->0),
{
}

} // verus!
