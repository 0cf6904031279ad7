//! What the client is started with: command line, environment and directories.
use crate::{paths, rooms, text};
use vstd::prelude::*;

verus! {

pub const DEFAULT_SERVER: &'static str = "p2p-signaling.yizhe.studio";

#[derive(Debug, Clone, Copy, PartialEq, Eq, Structural)]
pub enum RoleChoice {
    Host,
    Guest,
}

impl RoleChoice {
    pub open spec fn of(value: Seq<char>) -> Result<Self, Seq<char>> {
        if value == "host"@ {
            Ok(RoleChoice::Host)
        } else if value == "guest"@ {
            Ok(RoleChoice::Guest)
        } else {
            Err("--role must be either host or guest"@)
        }
    }

    pub fn parse(value: &str) -> (r: Result<Self, String>)
        ensures
            text::error_text(r) == RoleChoice::of(value@),
    {
        if text::same_text(value, "host") {
            Ok(RoleChoice::Host)
        } else if text::same_text(value, "guest") {
            Ok(RoleChoice::Guest)
        } else {
            Err("--role must be either host or guest".to_owned())
        }
    }
}

/// What the environment says of the client.
#[derive(Debug)]
pub struct EnvSettings {
    pub server: Option<String>,
    pub room: Option<String>,
    pub role: Option<String>,
    pub test_message: Option<String>,
}

#[verifier::ext_equal]
pub struct EnvSettingsView {
    pub server: Option<Seq<char>>,
    pub room: Option<Seq<char>>,
    pub role: Option<Seq<char>>,
    pub test_message: Option<Seq<char>>,
}

impl View for EnvSettings {
    type V = EnvSettingsView;

    open spec fn view(&self) -> EnvSettingsView {
        EnvSettingsView {
            server: text::opt_text(self.server),
            room: text::opt_text(self.room),
            role: text::opt_text(self.role),
            test_message: text::opt_text(self.test_message),
        }
    }
}

/// With what the client starts.
#[derive(Debug)]
pub struct ClientConfig {
    pub server: String,
    pub room: String,
    pub role: RoleChoice,
    pub server_explicit: bool,
    pub test_message: Option<String>,
}

#[verifier::ext_equal]
pub struct ClientConfigView {
    pub server: Seq<char>,
    pub room: Seq<char>,
    pub role: RoleChoice,
    pub server_explicit: bool,
    pub test_message: Option<Seq<char>>,
}

impl View for ClientConfig {
    type V = ClientConfigView;

    open spec fn view(&self) -> ClientConfigView {
        ClientConfigView {
            server: self.server@,
            room: self.room@,
            role: self.role,
            server_explicit: self.server_explicit,
            test_message: text::opt_text(self.test_message),
        }
    }
}

impl Clone for ClientConfig {
    fn clone(&self) -> (r: Self)
        ensures
            r@ == self@,
    {
        ClientConfig {
            server: self.server.clone(),
            room: self.room.clone(),
            role: self.role,
            server_explicit: self.server_explicit,
            test_message: text::clone_opt(&self.test_message),
        }
    }
}

/// What the command line asks for.
#[derive(Debug)]
pub enum Invocation {
    Run(ClientConfig),
    Help,
}

#[verifier::ext_equal]
pub enum InvocationView {
    Run(ClientConfigView),
    Help,
}

impl View for Invocation {
    type V = InvocationView;

    open spec fn view(&self) -> InvocationView {
        match self {
            Invocation::Run(a) => InvocationView::Run(a@),
            Invocation::Help => InvocationView::Help,
        }
    }
}

/// The settings as far as the command line has been read.
#[derive(Debug)]
pub struct Draft {
    pub server: String,
    pub room: String,
    pub role: String,
    pub server_explicit: bool,
    pub test_message: Option<String>,
}

#[verifier::ext_equal]
pub struct DraftView {
    pub server: Seq<char>,
    pub room: Seq<char>,
    pub role: Seq<char>,
    pub server_explicit: bool,
    pub test_message: Option<Seq<char>>,
}

impl View for Draft {
    type V = DraftView;

    open spec fn view(&self) -> DraftView {
        DraftView {
            server: self.server@,
            room: self.room@,
            role: self.role@,
            server_explicit: self.server_explicit,
            test_message: text::opt_text(self.test_message),
        }
    }
}

/// The directories that the environment names.
#[derive(Debug)]
pub struct DirEnv {
    pub local_app_data: Option<String>,
    pub app_data: Option<String>,
    pub home: Option<String>,
    pub xdg_data_home: Option<String>,
    pub xdg_config_home: Option<String>,
}

#[verifier::ext_equal]
pub struct DirEnvView {
    pub local_app_data: Option<Seq<char>>,
    pub app_data: Option<Seq<char>>,
    pub home: Option<Seq<char>>,
    pub xdg_data_home: Option<Seq<char>>,
    pub xdg_config_home: Option<Seq<char>>,
}

impl View for DirEnv {
    type V = DirEnvView;

    open spec fn view(&self) -> DirEnvView {
        DirEnvView {
            local_app_data: text::opt_text(self.local_app_data),
            app_data: text::opt_text(self.app_data),
            home: text::opt_text(self.home),
            xdg_data_home: text::opt_text(self.xdg_data_home),
            xdg_config_home: text::opt_text(self.xdg_config_home),
        }
    }
}

/// A value that is not blank.
pub open spec fn is_value(value: Option<Seq<char>>) -> bool {
    value is Some && text::white_trimmed(value->0).len() > 0
}

pub fn require_value(flag: &str, value: Option<String>) -> (r: Result<String, String>)
    ensures
        match r {
            Ok(v) => is_value(text::opt_text(value)) && Some(v@) == text::opt_text(value),
            Err(e) => !is_value(text::opt_text(value)) && e@ == flag@ + " requires a value"@,
        },
{
    if let Some(v) = value {
        let trimmed = text::trim(v.as_str());
        if !trimmed.as_str().is_empty() {
            return Ok(v);
        }
    }
    Err(text::concat(flag, " requires a value"))
}

/// How far the command line could be read.
pub enum Reading {
    Done(DraftView),
    Help,
    Wrong(Seq<char>),
}

pub open spec fn argument(args: Seq<Seq<char>>, i: int) -> Option<Seq<char>> {
    if i < args.len() {
        Some(args[i])
    } else {
        None
    }
}

/// The settings after the arguments from `i` on have been read.
pub open spec fn read_args(args: Seq<Seq<char>>, i: int, d: DraftView) -> Reading
    decreases args.len() - i,
{
    if i >= args.len() {
        Reading::Done(d)
    } else {
        let arg = args[i];
        let next = argument(args, i + 1);
        let takes_value = arg == "--server"@ || arg == "-s"@ || arg == "--room"@ || arg == "-r"@
            || arg == "--role"@ || arg == "--test-message"@;
        if takes_value && !is_value(next) {
            Reading::Wrong(arg + " requires a value"@)
        } else if arg == "--server"@ || arg == "-s"@ {
            read_args(args, i + 2, DraftView { server: next->0, server_explicit: true, ..d })
        } else if arg == "--room"@ || arg == "-r"@ {
            read_args(args, i + 2, DraftView { room: next->0, ..d })
        } else if arg == "--role"@ {
            read_args(args, i + 2, DraftView { role: next->0, ..d })
        } else if arg == "--test-message"@ {
            read_args(args, i + 2, DraftView { test_message: next, ..d })
        } else if arg == "--help"@ || arg == "-h"@ {
            Reading::Help
        } else if !"-"@.is_prefix_of(arg) {
            read_args(args, i + 1, DraftView { server: arg, server_explicit: true, ..d })
        } else {
            Reading::Wrong("unknown argument: "@ + arg)
        }
    }
}

/// The settings before the command line is read.
pub open spec fn draft_from(env: EnvSettingsView) -> DraftView {
    DraftView {
        server: match env.server {
            Some(s) => s,
            None => DEFAULT_SERVER@,
        },
        room: match env.room {
            Some(s) => s,
            None => Seq::empty(),
        },
        role: match env.role {
            Some(s) => s,
            None => "host"@,
        },
        server_explicit: env.server is Some,
        test_message: env.test_message,
    }
}

/// What the command line and the environment ask for.
pub open spec fn invocation(args: Seq<Seq<char>>, env: EnvSettingsView) -> Result<
    InvocationView,
    Seq<char>,
> {
    match read_args(args, 0, draft_from(env)) {
        Reading::Wrong(e) => Err(e),
        Reading::Help => Ok(InvocationView::Help),
        Reading::Done(d) => match RoleChoice::of(d.role) {
            Err(e) => Err(e),
            Ok(role) => Ok(
                InvocationView::Run(
                    ClientConfigView {
                        server: d.server,
                        room: rooms::normalized(d.room),
                        role,
                        server_explicit: d.server_explicit,
                        test_message: d.test_message,
                    },
                ),
            ),
        },
    }
}

fn or_else(value: Option<String>, default: &str) -> (r: String)
    ensures
        r@ == match text::opt_text(value) {
            Some(s) => s,
            None => default@,
        },
{
    match value {
        Some(s) => s,
        None => default.to_owned(),
    }
}

fn value_at(args: &Vec<String>, i: usize) -> (r: Option<String>)
    requires
        i <= args@.len(),
    ensures
        text::opt_text(r) == argument(text::texts(args@), i as int),
{
    if i < args.len() {
        Some(args[i].clone())
    } else {
        None
    }
}

impl ClientConfig {
    pub fn from_args(args: Vec<String>, env: EnvSettings) -> (r: Result<Invocation, String>)
        ensures
            match r {
                Ok(i) => invocation(text::texts(args@), env@) == Ok::<InvocationView, Seq<char>>(i@),
                Err(e) => invocation(text::texts(args@), env@) == Err::<InvocationView, Seq<char>>(
                    e@,
                ),
            },
    {
        let ghost all = text::texts(args@);
        let ghost given = env@;
        proof {
            reveal_strlit("");
            assert(""@ =~= Seq::<char>::empty());
        }
        let server_explicit = env.server.is_some();
        let mut d = Draft {
            server: or_else(env.server, DEFAULT_SERVER),
            room: or_else(env.room, ""),
            role: or_else(env.role, "host"),
            server_explicit,
            test_message: env.test_message,
        };
        let mut i: usize = 0;
        while i < args.len()
            invariant
                all == text::texts(args@),
                i <= args@.len(),
                read_args(all, 0, draft_from(given)) == read_args(all, i as int, d@),
                given == env@,
            decreases args@.len() - i,
        {
            let arg = args[i].as_str();
            assert(arg@ == all[i as int]);
            if text::same_text(arg, "--server") || text::same_text(arg, "-s") {
                match require_value(arg, value_at(&args, i + 1)) {
                    Err(e) => {
                        return Err(e);
                    },
                    Ok(v) => {
                        d.server = v;
                        d.server_explicit = true;
                    },
                }
                i += 2;
            } else if text::same_text(arg, "--room") || text::same_text(arg, "-r") {
                match require_value(arg, value_at(&args, i + 1)) {
                    Err(e) => {
                        return Err(e);
                    },
                    Ok(v) => {
                        d.room = v;
                    },
                }
                i += 2;
            } else if text::same_text(arg, "--role") {
                match require_value(arg, value_at(&args, i + 1)) {
                    Err(e) => {
                        return Err(e);
                    },
                    Ok(v) => {
                        d.role = v;
                    },
                }
                i += 2;
            } else if text::same_text(arg, "--test-message") {
                match require_value(arg, value_at(&args, i + 1)) {
                    Err(e) => {
                        return Err(e);
                    },
                    Ok(v) => {
                        d.test_message = Some(v);
                    },
                }
                i += 2;
            } else if text::same_text(arg, "--help") || text::same_text(arg, "-h") {
                return Ok(Invocation::Help);
            } else if !text::starts_with(arg, "-") {
                d.server = arg.to_owned();
                d.server_explicit = true;
                i += 1;
            } else {
                return Err(text::concat("unknown argument: ", arg));
            }
        }
        let role = match RoleChoice::parse(d.role.as_str()) {
            Err(e) => {
                return Err(e);
            },
            Ok(role) => role,
        };
        Ok(
            Invocation::Run(
                ClientConfig {
                    server: d.server,
                    room: rooms::normalize_room_input(d.room.as_str()),
                    role,
                    server_explicit: d.server_explicit,
                    test_message: d.test_message,
                },
            ),
        )
    }
}

/// Which conventions the directories follow.
#[derive(Debug, Clone, Copy, PartialEq, Eq, Structural)]
pub enum DirPlatform {
    Windows,
    Macos,
    Unix,
    Other,
}

/// A directory that is named at all.
pub open spec fn named(dir: Option<Seq<char>>) -> Option<Seq<char>> {
    if dir is Some && dir->0.len() > 0 {
        dir
    } else {
        None
    }
}

pub fn env_path(value: &Option<String>) -> (r: Option<String>)
    ensures
        text::opt_text(r) == named(text::opt_text(*value)),
{
    match value {
        Some(v) => {
            if v.as_str().is_empty() {
                None
            } else {
                Some(v.clone())
            }
        },
        None => None,
    }
}

/// Is `r` the directory two steps below `dir`? Said of directories that are not taken verbatim.
pub open spec fn is_below(r: Seq<char>, dir: Seq<char>, a: Seq<char>, b: Seq<char>) -> bool {
    !paths::is_verbatim(dir) ==> exists|middle: Seq<char>|
        #![auto]
        paths::is_joined(middle, dir, a) && paths::is_joined(r, middle, b)
}

/// Is `r` the directory one step below `dir`?
pub open spec fn is_in(r: Seq<char>, dir: Seq<char>, a: Seq<char>) -> bool {
    !paths::is_verbatim(dir) ==> paths::is_joined(r, dir, a)
}

/// A directory that the environment names, and what stands below it.
pub enum Place {
    At(Seq<char>),
    In(Seq<char>, Seq<char>),
    Below(Seq<char>, Seq<char>, Seq<char>),
}

/// Is the directory the one at this place?
pub open spec fn lies_at(dir: Seq<char>, place: Place) -> bool {
    match place {
        Place::At(base) => dir == base,
        Place::In(base, a) => is_in(dir, base, a),
        Place::Below(base, a, b) => is_below(dir, base, a, b),
    }
}

/// The first of two directories that is named.
pub open spec fn first_named(a: Option<Seq<char>>, b: Option<Seq<char>>) -> Option<Place> {
    match named(a) {
        Some(dir) => Some(Place::At(dir)),
        None => match named(b) {
            Some(dir) => Some(Place::At(dir)),
            None => None,
        },
    }
}

/// Where the directory for local data is.
pub open spec fn data_place(platform: DirPlatform, env: DirEnvView) -> Option<Place> {
    match platform {
        DirPlatform::Windows => first_named(env.local_app_data, env.app_data),
        DirPlatform::Macos => match named(env.home) {
            Some(home) => Some(Place::Below(home, "Library"@, "Application Support"@)),
            None => None,
        },
        DirPlatform::Unix => match (named(env.xdg_data_home), named(env.home)) {
            (Some(dir), _) => Some(Place::At(dir)),
            (None, Some(home)) => Some(Place::Below(home, ".local"@, "share"@)),
            (None, None) => None,
        },
        DirPlatform::Other => None,
    }
}

/// Where the directory for settings is.
pub open spec fn config_place(platform: DirPlatform, env: DirEnvView) -> Option<Place> {
    match platform {
        DirPlatform::Windows => first_named(env.app_data, env.local_app_data),
        DirPlatform::Macos => match named(env.home) {
            Some(home) => Some(Place::Below(home, "Library"@, "Application Support"@)),
            None => None,
        },
        DirPlatform::Unix => match (named(env.xdg_config_home), named(env.home)) {
            (Some(dir), _) => Some(Place::At(dir)),
            (None, Some(home)) => Some(Place::In(home, ".config"@)),
            (None, None) => None,
        },
        DirPlatform::Other => None,
    }
}

fn below_home(home: &Option<String>, a: &str, b: &str) -> (r: Option<String>)
    requires
        paths::is_plain_name(a@),
        paths::is_plain_name(b@),
        a@[0] != '?',
    ensures
        r is Some <==> named(text::opt_text(*home)) is Some,
        r matches Some(dir) ==> is_below(dir@, named(text::opt_text(*home))->0, a@, b@),
{
    match env_path(home) {
        Some(home) => {
            let middle = paths::join(home.as_str(), a);
            let dir = paths::join(middle.as_str(), b);
            proof {
                if !paths::is_verbatim(home@) {
                    paths::lemma_joined_is_not_verbatim(middle@, home@, a@);
                    assert(paths::is_joined(middle@, home@, a@));
                }
            }
            Some(dir)
        },
        None => None,
    }
}

/// The directory for local data.
pub fn data_dir(platform: DirPlatform, env: &DirEnv) -> (r: Option<String>)
    ensures
        match platform {
            DirPlatform::Windows => text::opt_text(r) == match named(env@.local_app_data) {
                Some(dir) => Some(dir),
                None => named(env@.app_data),
            },
            DirPlatform::Macos => {
                &&& r is Some <==> named(env@.home) is Some
                &&& r matches Some(dir) ==> is_below(
                    dir@,
                    named(env@.home)->0,
                    "Library"@,
                    "Application Support"@,
                )
            },
            DirPlatform::Unix => match named(env@.xdg_data_home) {
                Some(dir) => text::opt_text(r) == Some(dir),
                None => {
                    &&& r is Some <==> named(env@.home) is Some
                    &&& r matches Some(dir) ==> is_below(
                        dir@,
                        named(env@.home)->0,
                        ".local"@,
                        "share"@,
                    )
                },
            },
            DirPlatform::Other => r is None,
        },
        data_place(platform, env@) matches Some(place) ==> r is Some && lies_at(r->0@, place),
        data_place(platform, env@) is None ==> r is None,
{
    proof {
        reveal_strlit("Library");
        reveal_strlit("Application Support");
        reveal_strlit(".local");
        reveal_strlit("share");
        paths::lemma_long_name_is_plain("Library"@);
        paths::lemma_long_name_is_plain("Application Support"@);
        paths::lemma_long_name_is_plain(".local"@);
        paths::lemma_long_name_is_plain("share"@);
    }
    match platform {
        DirPlatform::Windows => match env_path(&env.local_app_data) {
            Some(dir) => Some(dir),
            None => env_path(&env.app_data),
        },
        DirPlatform::Macos => below_home(&env.home, "Library", "Application Support"),
        DirPlatform::Unix => match env_path(&env.xdg_data_home) {
            Some(dir) => Some(dir),
            None => below_home(&env.home, ".local", "share"),
        },
        DirPlatform::Other => None,
    }
}

/// The directory for settings.
pub fn config_dir(platform: DirPlatform, env: &DirEnv) -> (r: Option<String>)
    ensures
        match platform {
            DirPlatform::Windows => text::opt_text(r) == match named(env@.app_data) {
                Some(dir) => Some(dir),
                None => named(env@.local_app_data),
            },
            DirPlatform::Macos => {
                &&& r is Some <==> named(env@.home) is Some
                &&& r matches Some(dir) ==> is_below(
                    dir@,
                    named(env@.home)->0,
                    "Library"@,
                    "Application Support"@,
                )
            },
            DirPlatform::Unix => match named(env@.xdg_config_home) {
                Some(dir) => text::opt_text(r) == Some(dir),
                None => {
                    &&& r is Some <==> named(env@.home) is Some
                    &&& r matches Some(dir) ==> is_in(dir@, named(env@.home)->0, ".config"@)
                },
            },
            DirPlatform::Other => r is None,
        },
        config_place(platform, env@) matches Some(place) ==> r is Some && lies_at(r->0@, place),
        config_place(platform, env@) is None ==> r is None,
{
    proof {
        reveal_strlit("Library");
        reveal_strlit("Application Support");
        reveal_strlit(".config");
        paths::lemma_long_name_is_plain("Library"@);
        paths::lemma_long_name_is_plain("Application Support"@);
        paths::lemma_long_name_is_plain(".config"@);
    }
    match platform {
        DirPlatform::Windows => match env_path(&env.app_data) {
            Some(dir) => Some(dir),
            None => env_path(&env.local_app_data),
        },
        DirPlatform::Macos => below_home(&env.home, "Library", "Application Support"),
        DirPlatform::Unix => match env_path(&env.xdg_config_home) {
            Some(dir) => Some(dir),
            None => match env_path(&env.home) {
                Some(home) => Some(paths::join(home.as_str(), ".config")),
                None => None,
            },
        },
        DirPlatform::Other => None,
    }
}

/// The file for the settings of the client.
pub fn config_path(dir: Option<String>) -> (r: Option<String>)
    ensures
        r is Some <==> dir is Some,
        r matches Some(path) ==> is_below(path@, dir->0@, "p2p-signaling"@, "gui.json"@),
{
    proof {
        reveal_strlit("p2p-signaling");
        reveal_strlit("gui.json");
        paths::lemma_long_name_is_plain("p2p-signaling"@);
        paths::lemma_long_name_is_plain("gui.json"@);
    }
    match dir {
        Some(dir) => {
            let middle = paths::join(dir.as_str(), "p2p-signaling");
            let path = paths::join(middle.as_str(), "gui.json");
            proof {
                if !paths::is_verbatim(dir@) {
                    paths::lemma_joined_is_not_verbatim(middle@, dir@, "p2p-signaling"@);
                    assert(paths::is_joined(middle@, dir@, "p2p-signaling"@));
                }
            }
            Some(path)
        },
        None => None,
    }
}

/// The server to start with: the one that was asked for, else the one that was saved, if it is not
/// blank, else the usual one.
pub open spec fn first_server(
    explicit: bool,
    server: Seq<char>,
    stored: Option<Seq<char>>,
) -> Seq<char> {
    if !explicit && is_value(stored) {
        stored->0
    } else {
        server
    }
}

pub fn initial_server(explicit: bool, server: String, stored: Option<String>) -> (r: String)
    ensures
        r@ == first_server(explicit, server@, text::opt_text(stored)),
{
    if !explicit {
        if let Some(saved) = stored {
            let trimmed = text::trim(saved.as_str());
            if !trimmed.as_str().is_empty() {
                return saved;
            }
        }
    }
    server
}

/// A directory that the environment names for the purpose is used before any other: on Windows the
/// local one for data and the other for settings, elsewhere that of the desktop's own variables.
/// Where it is not named, or named by nothing, the other one of Windows or a directory below the home
/// takes its place. A Macintosh keeps both in one.
pub proof fn directories_are_those_that_the_environment_names(env: DirEnvView, dir: Seq<char>)
    requires
        dir.len() > 0,
    ensures
        env.local_app_data == Some(dir) ==> data_place(DirPlatform::Windows, env) == Some(
            Place::At(dir),
        ),
        env.app_data == Some(dir) ==> config_place(DirPlatform::Windows, env) == Some(
            Place::At(dir),
        ),
        env.local_app_data == Some(dir) && env.app_data is None ==> config_place(
            DirPlatform::Windows,
            env,
        ) == Some(Place::At(dir)),
        env.app_data == Some(dir) && env.local_app_data is None ==> data_place(
            DirPlatform::Windows,
            env,
        ) == Some(Place::At(dir)),
        env.app_data == Some(dir) && env.local_app_data == Some(Seq::<char>::empty())
            ==> data_place(DirPlatform::Windows, env) == Some(Place::At(dir)),
        env.xdg_data_home == Some(dir) ==> data_place(DirPlatform::Unix, env) == Some(
            Place::At(dir),
        ),
        env.xdg_config_home == Some(dir) ==> config_place(DirPlatform::Unix, env) == Some(
            Place::At(dir),
        ),
        env.home == Some(dir) && env.xdg_data_home is None ==> data_place(DirPlatform::Unix, env)
            == Some(Place::Below(dir, ".local"@, "share"@)),
        env.home == Some(dir) && env.xdg_config_home is None ==> config_place(
            DirPlatform::Unix,
            env,
        ) == Some(Place::In(dir, ".config"@)),
        env.home == Some(dir) ==> data_place(DirPlatform::Macos, env) == Some(
            Place::Below(dir, "Library"@, "Application Support"@),
        ) && config_place(DirPlatform::Macos, env) == data_place(DirPlatform::Macos, env),
        data_place(DirPlatform::Other, env) is None && config_place(DirPlatform::Other, env) is None,
{
}

/// A server that was asked for is kept; one that was saved is used where none was asked for, unless
/// it is blank.
pub proof fn the_server_that_was_asked_for_comes_first(
    server: Seq<char>,
    saved: Seq<char>,
    stored: Option<Seq<char>>,
)
    ensures
        first_server(true, server, stored) == server,
        first_server(false, server, None) == server,
        saved.len() > 0 && !text::is_white(saved[0]) && !text::is_white(saved.last())
            ==> first_server(false, server, Some(saved)) == saved,
        text::all_of(saved, |c: char| text::is_white(c)) ==> first_server(
            false,
            server,
            Some(saved),
        ) == server,
{
    let none = Seq::<char>::empty();
    if saved.len() > 0 && !text::is_white(saved[0]) && !text::is_white(saved.last()) {
        text::white_space_around_a_text_is_dropped(none, saved, none);
        assert(none + saved + none =~= saved);
    }
    if text::all_of(saved, |c: char| text::is_white(c)) {
        text::white_space_around_a_text_is_dropped(saved, none, none);
        assert(saved + none + none =~= saved);
    }
}

/// The role is that which is named, and no other name is one.
pub proof fn roles_are_named(value: Seq<char>)
    ensures
        RoleChoice::of("host"@) == Ok::<RoleChoice, Seq<char>>(RoleChoice::Host),
        RoleChoice::of("guest"@) == Ok::<RoleChoice, Seq<char>>(RoleChoice::Guest),
        RoleChoice::of(value) is Err <==> value != "host"@ && value != "guest"@,
{
    reveal_strlit("host");
    reveal_strlit("guest");
    assert("host"@.len() != "guest"@.len());
}

proof fn lemma_flags()
    ensures
        "--server"@ != "--room"@,
        "--server"@ != "--role"@,
        "--server"@ != "--test-message"@,
        "--room"@ != "--role"@,
        "--room"@ != "--test-message"@,
        "--role"@ != "--test-message"@,
        "-s"@ != "-r"@,
        "--server"@.len() == 8,
        "--room"@.len() == 6,
        "--role"@.len() == 6,
        "--test-message"@.len() == 14,
        "--help"@.len() == 6,
        "-s"@.len() == 2,
        "-r"@.len() == 2,
        "-h"@.len() == 2,
        "--help"@ != "--room"@,
        "--help"@ != "--role"@,
        "-h"@ != "-s"@,
        "-h"@ != "-r"@,
        "-"@ == seq!['-'],
        "--server"@[0] == '-',
        "--room"@[0] == '-',
        "--role"@[0] == '-',
        "--test-message"@[0] == '-',
        "--help"@[0] == '-',
        "-s"@[0] == '-',
        "-r"@[0] == '-',
        "-h"@[0] == '-',
{
    reveal_strlit("--server");
    reveal_strlit("--room");
    reveal_strlit("--role");
    reveal_strlit("--test-message");
    reveal_strlit("--help");
    reveal_strlit("-s");
    reveal_strlit("-r");
    reveal_strlit("-h");
    reveal_strlit("-");
    assert("-"@ =~= seq!['-']);
    assert("--server"@.len() == 8 && "--test-message"@.len() == 14);
    assert("--room"@[4] != "--role"@[4]);
    assert("--help"@[2] != "--room"@[2]);
    assert("--help"@[2] != "--role"@[2]);
    assert("-s"@[1] != "-r"@[1]);
    assert("-h"@[1] != "-r"@[1]);
    assert("-h"@[1] != "-s"@[1]);
}

/// Each flag sets what it names to the value behind it, and the arguments behind that are read next;
/// a bare name is a server. So the last of several counts.
pub proof fn flags_set_what_they_name(
    args: Seq<Seq<char>>,
    i: int,
    d: DraftView,
    value: Seq<char>,
)
    requires
        0 <= i,
        i + 1 < args.len(),
        args[i + 1] == value,
        text::white_trimmed(value).len() > 0,
    ensures
        args[i] == "--server"@ || args[i] == "-s"@ ==> read_args(args, i, d) == read_args(
            args,
            i + 2,
            DraftView { server: value, server_explicit: true, ..d },
        ),
        args[i] == "--room"@ || args[i] == "-r"@ ==> read_args(args, i, d) == read_args(
            args,
            i + 2,
            DraftView { room: value, ..d },
        ),
        args[i] == "--role"@ ==> read_args(args, i, d) == read_args(
            args,
            i + 2,
            DraftView { role: value, ..d },
        ),
        args[i] == "--test-message"@ ==> read_args(args, i, d) == read_args(
            args,
            i + 2,
            DraftView { test_message: Some(value), ..d },
        ),
{
    lemma_flags();
}

/// A bare name is the server, help is given where it is asked for, and what is no flag and begins
/// like one is refused, as is a flag without its value.
pub proof fn other_arguments_are_names_or_refused(args: Seq<Seq<char>>, i: int, d: DraftView)
    requires
        0 <= i < args.len(),
    ensures
        ({
            let arg = args[i];
            let needs = arg == "--server"@ || arg == "-s"@ || arg == "--room"@ || arg == "-r"@ || arg
                == "--role"@ || arg == "--test-message"@;
            let blank = i + 1 >= args.len() || text::white_trimmed(args[i + 1]).len() == 0;
            let asks = arg == "--help"@ || arg == "-h"@;
            &&& arg.len() == 0 || arg[0] != '-' ==> read_args(args, i, d) == read_args(
                args,
                i + 1,
                DraftView { server: arg, server_explicit: true, ..d },
            )
            &&& asks ==> read_args(args, i, d) is Help
            &&& needs && blank ==> read_args(args, i, d) == Reading::Wrong(
                arg + " requires a value"@,
            )
            &&& arg.len() > 0 && arg[0] == '-' && !needs && !asks ==> read_args(args, i, d)
                == Reading::Wrong("unknown argument: "@ + arg)
        }),
        read_args(args, args.len() as int, d) == Reading::Done(d),
{
    lemma_flags();
    let arg = args[i];
    if arg.len() > 0 {
        assert(arg.subrange(0, 1) =~= seq![arg[0]]);
        assert("-"@.len() == 1 && "-"@[0] == '-');
        assert(arg.subrange(0, 1)[0] == arg[0]);
        assert("-"@.is_prefix_of(arg) <==> arg[0] == '-');
    } else {
        assert(!"-"@.is_prefix_of(arg));
    }
}

/// Without arguments the environment decides, and without that the client hosts a room at the usual
/// server. What comes out is the draft that was read, with the digits of the room.
pub proof fn without_arguments_the_environment_decides(env: EnvSettingsView, role: RoleChoice)
    requires
        env.role is None && role == RoleChoice::Host || env.role is Some && RoleChoice::of(
            env.role->0,
        ) == Ok::<RoleChoice, Seq<char>>(role),
    ensures
        invocation(Seq::empty(), env) == Ok::<InvocationView, Seq<char>>(
            InvocationView::Run(
                ClientConfigView {
                    server: if env.server is Some {
                        env.server->0
                    } else {
                        "p2p-signaling.yizhe.studio"@
                    },
                    room: if env.room is Some {
                        rooms::normalized(env.room->0)
                    } else {
                        rooms::normalized(Seq::empty())
                    },
                    role,
                    server_explicit: env.server is Some,
                    test_message: env.test_message,
                },
            ),
        ),
{
}

}
