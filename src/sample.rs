//! A sample game-library extension: a cached list of games with paging,
//! lookup and launch, and its answers to hooks. Rendering answers as JSON is
//! left to the host.
use vstd::prelude::*;
use vstd::string::*;
use crate::error::ExtensionError;
use crate::manifest::{ExtensionManifest, ExtensionType};
use crate::text::{copy_opt_string, str_equals};

verus! {

/// A game the extension knows of.
#[derive(Debug)]
pub struct Game {
    pub id: String,
    pub name: String,
    pub platform: String,
    pub install_path: Option<String>,
    pub executable_path: Option<String>,
    pub cover_image: Option<String>,
    pub description: Option<String>,
    pub last_played: Option<String>,
    pub playtime_minutes: u32,
}

impl Game {
    /// A field-by-field copy.
    pub fn duplicate(&self) -> (r: Game)
        ensures
            r == *self,
    {
        Game {
            id: self.id.clone(),
            name: self.name.clone(),
            platform: self.platform.clone(),
            install_path: copy_opt_string(&self.install_path),
            executable_path: copy_opt_string(&self.executable_path),
            cover_image: copy_opt_string(&self.cover_image),
            description: copy_opt_string(&self.description),
            last_played: copy_opt_string(&self.last_played),
            playtime_minutes: self.playtime_minutes,
        }
    }
}

/// One page of the cached games.
#[derive(Debug)]
pub struct GamesPage {
    pub total: usize,
    pub games: Vec<Game>,
    pub limit: u64,
    pub offset: u64,
}

/// The outcome of a launch request.
#[derive(Debug)]
pub struct LaunchReport {
    pub game_id: String,
    pub executable_path: Option<String>,
    pub message: String,
}

/// The answer to a hook.
#[derive(Debug)]
pub enum HookReply {
    /// `on_startup`: ready, with the number of cached games.
    Ready { games_count: usize },
    /// `on_game_scan`: a scan was asked for.
    ScanTriggered,
    /// Any other hook is acknowledged as not handled.
    Unhandled { hook: String },
}

/// The API calls the extension answers.
#[derive(Debug, Clone, Copy, PartialEq, Eq, Structural)]
pub enum ApiCall {
    GetGames,
    GetGameDetails,
    LaunchGame,
}

/// Page size when none is given.
pub const DEFAULT_PAGE_SIZE: u64 = 50;

pub open spec fn min_int(a: int, b: int) -> int {
    if a <= b {
        a
    } else {
        b
    }
}

/// The games of a page: skip `offset`, then take at most `limit`.
pub open spec fn page_of(games: Seq<Game>, offset: int, limit: int) -> Seq<Game> {
    games.subrange(min_int(offset, games.len() as int), min_int(offset + limit, games.len() as int))
}

pub open spec fn has_game(games: Seq<Game>, id: Seq<char>) -> bool {
    exists|i: int| 0 <= i < games.len() && #[trigger] games[i].id@ == id
}

/// Index of the first game with id `id`.
pub open spec fn first_game(games: Seq<Game>, id: Seq<char>) -> int {
    choose|i: int|
        0 <= i < games.len() && #[trigger] games[i].id@ == id && forall|j: int|
            0 <= j < i ==> games[j].id@ != id
}

/// A demonstration game on the PC platform with the given texts.
pub open spec fn sample_game(
    g: Game,
    id: Seq<char>,
    name: Seq<char>,
    install_path: Seq<char>,
    executable_path: Seq<char>,
    cover_image: Seq<char>,
    description: Seq<char>,
) -> bool {
    &&& g.id@ == id
    &&& g.name@ == name
    &&& g.platform@ == "PC"@
    &&& g.install_path matches Some(p) && p@ == install_path
    &&& g.executable_path matches Some(p) && p@ == executable_path
    &&& g.cover_image matches Some(p) && p@ == cover_image
    &&& g.description matches Some(p) && p@ == description
}

fn opt_str(s: &str) -> (r: Option<String>)
    ensures
        r matches Some(x) && x@ == s@,
{
    Some(String::from_str(s))
}

/// The extension's state.
#[derive(Debug)]
pub struct SampleGameLibraryExtension {
    manifest: ExtensionManifest,
    games: Vec<Game>,
    is_initialized: bool,
}

impl SampleGameLibraryExtension {
    pub closed spec fn manifest_view(&self) -> ExtensionManifest {
        self.manifest
    }

    pub closed spec fn games_view(&self) -> Seq<Game> {
        self.games@
    }

    pub closed spec fn initialized(&self) -> bool {
        self.is_initialized
    }

    pub fn new(manifest: ExtensionManifest) -> (r: SampleGameLibraryExtension)
        ensures
            r.manifest_view() == manifest,
            r.games_view().len() == 0,
            !r.initialized(),
    {
        SampleGameLibraryExtension { manifest, games: Vec::new(), is_initialized: false }
    }

    pub fn initialize(&mut self)
        ensures
            final(self).initialized(),
            final(self).games_view() == old(self).games_view(),
            final(self).manifest_view() == old(self).manifest_view(),
    {
        self.is_initialized = true;
    }

    /// Clears the cache.
    pub fn shutdown(&mut self)
        ensures
            !final(self).initialized(),
            final(self).games_view().len() == 0,
            final(self).manifest_view() == old(self).manifest_view(),
    {
        self.games = Vec::new();
        self.is_initialized = false;
    }

    pub fn get_manifest(&self) -> (r: &ExtensionManifest)
        ensures
            *r == self.manifest_view(),
    {
        &self.manifest
    }

    pub fn get_type(&self) -> (r: ExtensionType)
        ensures
            r == ExtensionType::GameLibrary,
    {
        ExtensionType::GameLibrary
    }

    /// Replaces the cache with the two demonstration games and returns how
    /// many there are.
    pub fn scan_games(&mut self) -> (r: usize)
        ensures
            r == 2,
            final(self).games_view().len() == 2,
            sample_game(
                final(self).games_view()[0],
                "game1"@,
                "Sample Game 1"@,
                "/games/sample_game_1"@,
                "/games/sample_game_1/game.exe"@,
                "/games/sample_game_1/cover.jpg"@,
                "A sample game for demonstration purposes"@,
            ),
            final(self).games_view()[0].last_played matches Some(t) && t@ == "2024-01-15T10:30:00Z"@,
            final(self).games_view()[0].playtime_minutes == 120,
            sample_game(
                final(self).games_view()[1],
                "game2"@,
                "Sample Game 2"@,
                "/games/sample_game_2"@,
                "/games/sample_game_2/launch.exe"@,
                "/games/sample_game_2/boxart.png"@,
                "Another sample game with different metadata"@,
            ),
            final(self).games_view()[1].last_played is None,
            final(self).games_view()[1].playtime_minutes == 0,
            final(self).manifest_view() == old(self).manifest_view(),
            final(self).initialized() == old(self).initialized(),
    {
        let mut games: Vec<Game> = Vec::new();
        games.push(
            Game {
                id: String::from_str("game1"),
                name: String::from_str("Sample Game 1"),
                platform: String::from_str("PC"),
                install_path: opt_str("/games/sample_game_1"),
                executable_path: opt_str("/games/sample_game_1/game.exe"),
                cover_image: opt_str("/games/sample_game_1/cover.jpg"),
                description: opt_str("A sample game for demonstration purposes"),
                last_played: opt_str("2024-01-15T10:30:00Z"),
                playtime_minutes: 120,
            },
        );
        games.push(
            Game {
                id: String::from_str("game2"),
                name: String::from_str("Sample Game 2"),
                platform: String::from_str("PC"),
                install_path: opt_str("/games/sample_game_2"),
                executable_path: opt_str("/games/sample_game_2/launch.exe"),
                cover_image: opt_str("/games/sample_game_2/boxart.png"),
                description: opt_str("Another sample game with different metadata"),
                last_played: None,
                playtime_minutes: 0,
            },
        );
        self.games = games;
        self.games.len()
    }

    /// A page of the cached games; 50 games from the start unless told
    /// otherwise.
    pub fn get_games(&self, limit: Option<u64>, offset: Option<u64>) -> (r: GamesPage)
        ensures
            r.total == self.games_view().len(),
            r.limit == match limit {
                Some(l) => l,
                None => DEFAULT_PAGE_SIZE,
            },
            r.offset == match offset {
                Some(o) => o,
                None => 0,
            },
            r.games@ == page_of(self.games_view(), r.offset as int, r.limit as int),
    {
        let limit = match limit {
            Some(l) => l,
            None => DEFAULT_PAGE_SIZE,
        };
        let offset = match offset {
            Some(o) => o,
            None => 0,
        };
        let n = self.games.len();
        let start: usize = if offset >= n as u64 {
            n
        } else {
            offset as usize
        };
        let end: usize = if limit >= (n - start) as u64 {
            n
        } else {
            start + limit as usize
        };
        let mut out: Vec<Game> = Vec::new();
        let mut i: usize = start;
        while i < end
            invariant
                start <= i <= end <= n,
                n == self.games@.len(),
                out@ == self.games@.subrange(start as int, i as int),
            decreases end - i,
        {
            out.push(self.games[i].duplicate());
            i += 1;
            assert(out@ =~= self.games@.subrange(start as int, i as int));
        }
        assert(out@ =~= page_of(self.games@, offset as int, limit as int));
        GamesPage { total: n, games: out, limit, offset }
    }

    fn find(&self, game_id: &str) -> (r: Option<usize>)
        ensures
            r is None <==> !has_game(self.games@, game_id@),
            r matches Some(i) ==> i < self.games@.len() && i == first_game(self.games@, game_id@)
                && self.games@[i as int].id@ == game_id@,
    {
        let mut i: usize = 0;
        while i < self.games.len()
            invariant
                i <= self.games@.len(),
                forall|j: int| 0 <= j < i ==> #[trigger] self.games@[j].id@ != game_id@,
            decreases self.games@.len() - i,
        {
            if str_equals(self.games[i].id.as_str(), game_id) {
                proof {
                    assert(self.games@[i as int].id@ == game_id@);
                    let f = first_game(self.games@, game_id@);
                    assert(0 <= f < self.games@.len() && self.games@[f].id@ == game_id@);
                    if f != i {
                        if f < i {
                            assert(self.games@[f].id@ != game_id@);
                        } else {
                            assert(self.games@[i as int].id@ != game_id@);
                        }
                    }
                }
                return Some(i);
            }
            i += 1;
        }
        None
    }

    /// The cached game with id `game_id`: `Validation` without an id,
    /// `NotFound` when no game has it.
    pub fn get_game_details(&self, game_id: Option<&str>) -> (r: Result<Game, ExtensionError>)
        ensures
            game_id is None ==> (r matches Err(ExtensionError::Validation(_))),
            game_id matches Some(g) ==> {
                &&& r is Ok <==> has_game(self.games_view(), g@)
                &&& r is Err ==> (r matches Err(ExtensionError::NotFound(_)))
                &&& r is Ok ==> r->Ok_0 == self.games_view()[first_game(self.games_view(), g@)]
            },
    {
        let g = match game_id {
            Some(g) => g,
            None => {
                return Err(ExtensionError::Validation(String::from_str("game_id parameter required")));
            },
        };
        match self.find(g) {
            Some(i) => Ok(self.games[i].duplicate()),
            None => Err(
                ExtensionError::NotFound(
                    String::from_str("Game with id ").concat(g).concat(" not found"),
                ),
            ),
        }
    }

    /// Launches the cached game with id `game_id` (a stand-in: nothing is
    /// run); errors as for `get_game_details`.
    pub fn launch_game(&self, game_id: Option<&str>) -> (r: Result<LaunchReport, ExtensionError>)
        ensures
            game_id is None ==> (r matches Err(ExtensionError::Validation(_))),
            game_id matches Some(g) ==> {
                &&& r is Ok <==> has_game(self.games_view(), g@)
                &&& r is Err ==> (r matches Err(ExtensionError::NotFound(_)))
                &&& r is Ok ==> {
                    let game = self.games_view()[first_game(self.games_view(), g@)];
                    &&& r->Ok_0.game_id@ == g@
                    &&& r->Ok_0.executable_path == game.executable_path
                    &&& r->Ok_0.message@ == "Game '"@ + game.name@ + "' launched successfully"@
                }
            },
    {
        let g = match game_id {
            Some(g) => g,
            None => {
                return Err(ExtensionError::Validation(String::from_str("game_id parameter required")));
            },
        };
        match self.find(g) {
            Some(i) => {
                let game = &self.games[i];
                let message = String::from_str("Game '").concat(game.name.as_str()).concat(
                    "' launched successfully",
                );
                Ok(
                    LaunchReport {
                        game_id: String::from_str(g),
                        executable_path: copy_opt_string(&game.executable_path),
                        message,
                    },
                )
            },
            None => Err(
                ExtensionError::NotFound(
                    String::from_str("Game with id ").concat(g).concat(" not found"),
                ),
            ),
        }
    }

    /// Which API an incoming call names: `scan_games` needs exclusive access
    /// and is refused with `Validation`; unknown names are `NotFound`.
    pub fn route_api_call(&self, api: &str) -> (r: Result<ApiCall, ExtensionError>)
        ensures
            api@ == "get_games"@ ==> r == Ok::<ApiCall, ExtensionError>(ApiCall::GetGames),
            api@ == "get_game_details"@ ==> r == Ok::<ApiCall, ExtensionError>(ApiCall::GetGameDetails),
            api@ == "launch_game"@ ==> r == Ok::<ApiCall, ExtensionError>(ApiCall::LaunchGame),
            api@ == "scan_games"@ ==> (r matches Err(ExtensionError::Validation(_))),
            api@ != "get_games"@ && api@ != "get_game_details"@ && api@ != "launch_game"@ && api@
                != "scan_games"@ ==> (r matches Err(ExtensionError::NotFound(_))),
    {
        proof {
            reveal_strlit("scan_games");
            reveal_strlit("get_games");
            reveal_strlit("get_game_details");
            reveal_strlit("launch_game");
            assert("scan_games"@.len() == 10);
            assert("get_games"@.len() == 9);
            assert("get_game_details"@.len() == 16);
            assert("launch_game"@.len() == 11);
            assert("get_game_details"@ != "get_games"@);
            assert("launch_game"@ != "get_games"@);
            assert("launch_game"@ != "get_game_details"@);
            assert("launch_game"@[0] != "scan_games"@[0]);
            assert("launch_game"@ != "scan_games"@);
        }
        if str_equals(api, "scan_games") {
            Err(ExtensionError::Validation(String::from_str("scan_games requires mutable access")))
        } else if str_equals(api, "get_games") {
            Ok(ApiCall::GetGames)
        } else if str_equals(api, "get_game_details") {
            Ok(ApiCall::GetGameDetails)
        } else if str_equals(api, "launch_game") {
            Ok(ApiCall::LaunchGame)
        } else {
            Err(ExtensionError::NotFound(String::from_str("Unknown API: ").concat(api)))
        }
    }

    /// The answer to a hook; unknown hooks are tolerated.
    pub fn handle_hook(&self, hook: &str) -> (r: HookReply)
        ensures
            hook@ == "on_startup"@ ==> r == (HookReply::Ready { games_count: self.games_view().len() as usize }),
            hook@ == "on_game_scan"@ ==> r is ScanTriggered,
            hook@ != "on_startup"@ && hook@ != "on_game_scan"@ ==> (r matches HookReply::Unhandled { hook: h } && h@ == hook@),
    {
        proof {
            reveal_strlit("on_startup");
            reveal_strlit("on_game_scan");
            assert("on_startup"@.len() == 10);
            assert("on_game_scan"@.len() == 12);
            assert("on_startup"@ != "on_game_scan"@);
        }
        if str_equals(hook, "on_startup") {
            HookReply::Ready { games_count: self.games.len() }
        } else if str_equals(hook, "on_game_scan") {
            HookReply::ScanTriggered
        } else {
            HookReply::Unhandled { hook: String::from_str(hook) }
        }
    }
}

/// Builds the extension for a manifest; the loading system calls this.
pub fn create_extension(manifest: ExtensionManifest) -> (r: SampleGameLibraryExtension)
    ensures
        r.manifest_view() == manifest,
        r.games_view().len() == 0,
        !r.initialized(),
{
    SampleGameLibraryExtension::new(manifest)
}

} // verus!
