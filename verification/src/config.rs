use vstd::prelude::*;

use vstd::view::View as _;

use vstd::string::StringExecFns;
use vstd::string::StrSliceExecFns;

use crate::errors::AppError;
use crate::frame::{kept_rows, parse_pattern, pattern_cells, rows_ok, READ_CHAR_ALIVE,
    READ_CHAR_DEAD};
use crate::game::{
    check_new_fits, initial_viewport, lemma_view_names_distinct, new_fits, Game, View,
};
use crate::trusted::json_extract;

verus! {

/// Immutable run configuration: tick delay, viewing mode, optional
/// explicit window size, and the two glyphs used to render cells.
#[derive(Debug, Clone, Copy, PartialEq, Eq)]
pub struct Settings {
    pub delay_ms: u64,
    pub view: View,
    pub char_alive: char,
    pub char_dead: char,
    pub width: Option<u64>,
    pub height: Option<u64>,
}

impl Settings {
    pub open spec fn default_spec() -> Settings {
        Settings {
            delay_ms: 500u64,
            view: View::Centered,
            char_alive: '#',
            char_dead: '-',
            width: None,
            height: None,
        }
    }
}

impl Default for Settings {
    fn default() -> (r: Settings)
        ensures
            r == Settings::default_spec(),
    {
        Settings {
            delay_ms: 500,
            view: View::Centered,
            char_alive: '#',
            char_dead: '-',
            width: None,
            height: None,
        }
    }
}


/// Explicit window sizes must be positive and fit the coordinate range.
pub open spec fn dims_ok(s: Settings) -> bool {
    &&& match s.width {
        Some(w) => 1 <= w <= i64::MAX,
        None => true,
    }
    &&& match s.height {
        Some(h) => 1 <= h <= i64::MAX,
        None => true,
    }
}

/// The plain parts a JSON configuration document can carry. For each
/// member the outer Option says whether the key is present, the inner
/// one whether its value has the expected JSON type.
#[derive(Debug)]
pub struct JsonParts {
    pub pattern: Option<Option<String>>,
    pub delay: Option<Option<u64>>,
    pub view: Option<Option<String>>,
    pub char_alive: Option<Option<String>>,
    pub char_dead: Option<Option<String>>,
    pub width: Option<Option<u64>>,
    pub height: Option<Option<u64>>,
}

/// What the JSON reader lifts out of a configuration text: `None` when
/// the text is not one JSON document, else the members as the document
/// has them. The reader's result depends on the text alone.
pub uninterp spec fn json_parts_of(s: Seq<char>) -> Option<JsonParts>;

/// The lifted parts denote a configuration: the pattern is a string,
/// no present member has the wrong type, the view is a mode name, and
/// each glyph is a single character.
pub open spec fn parts_shape_ok(p: JsonParts) -> bool {
    &&& p.pattern matches Some(Some(_))
    &&& !(p.delay matches Some(None))
    &&& !(p.view matches Some(None))
    &&& !(p.char_alive matches Some(None))
    &&& !(p.char_dead matches Some(None))
    &&& !(p.width matches Some(None))
    &&& !(p.height matches Some(None))
    &&& (p.view matches Some(Some(v)) ==> (v@ == "centered"@ || v@ == "fixed"@ || v@
        == "follow"@))
    &&& (p.char_alive matches Some(Some(a)) ==> a@.len() == 1)
    &&& (p.char_dead matches Some(Some(d)) ==> d@.len() == 1)
}

/// The settings the lifted parts denote, defaults filling the absences.
pub open spec fn settings_of_parts(p: JsonParts) -> Settings {
    Settings {
        delay_ms: match p.delay {
            Some(Some(d)) => d,
            _ => 500u64,
        },
        view: match p.view {
            Some(Some(v)) => view_of_name(v@),
            _ => View::Centered,
        },
        char_alive: match p.char_alive {
            Some(Some(a)) => a@[0],
            _ => '#',
        },
        char_dead: match p.char_dead {
            Some(Some(d)) => d@[0],
            _ => '-',
        },
        width: match p.width {
            Some(Some(w)) => Some(w),
            _ => None,
        },
        height: match p.height {
            Some(Some(h)) => Some(h),
            _ => None,
        },
    }
}

/// The configuration a JSON text denotes, when it denotes one.
pub open spec fn config_of(s: Seq<char>) -> Option<GameConfig> {
    match json_parts_of(s) {
        Some(p) => if parts_shape_ok(p) {
            Some(GameConfig { settings: settings_of_parts(p), pattern: p.pattern->0->0 })
        } else {
            None
        },
        None => None,
    }
}

/// A structured configuration from which a whole Game is built: the
/// settings and the pattern text.
#[derive(Debug, Clone, PartialEq)]
pub struct GameConfig {
    pub settings: Settings,
    pub pattern: String,
}

/// Whether this configuration builds a game: a renderable view mode,
/// window sizes in range, a pattern of glyphs, and a window that fits
/// the coordinate range.
pub open spec fn config_ok(c: GameConfig) -> bool {
    &&& !(c.settings.view is Follow)
    &&& dims_ok(c.settings)
    &&& c.pattern@.len() <= i64::MAX
    &&& rows_ok(kept_rows(c.pattern@), READ_CHAR_ALIVE, READ_CHAR_DEAD)
    &&& new_fits(
        pattern_cells(kept_rows(c.pattern@), READ_CHAR_ALIVE),
        c.settings,
    )
}

impl GameConfig {
    /// Build the configured Game, or say exactly why that cannot be
    /// done. A failed build leaves nothing half-made.
    pub fn build(self) -> (r: Result<Game, AppError>)
        ensures
            r is Ok <==> config_ok(self),
            r matches Ok(game) ==> ({
                &&& game.inv()
                &&& game.live() == pattern_cells(
                    kept_rows(self.pattern@),
                    READ_CHAR_ALIVE,
                )
                &&& game.settings_spec() == self.settings
                &&& game.viewport == initial_viewport(game.live(), self.settings)
            }),
            r matches Err(e) ==> (e is ParseGrid || e is Config),
    {
        if matches!(self.settings.view, View::Follow) {
            return Err(
                AppError::Config(String::from_str("view mode 'follow' is not supported")),
            );
        }
        match self.settings.width {
            Some(w) => {
                if w < 1 || w > i64::MAX as u64 {
                    return Err(
                        AppError::Config(
                            String::from_str("width must be positive and fit the grid range"),
                        ),
                    );
                }
            },
            None => {},
        }
        match self.settings.height {
            Some(h) => {
                if h < 1 || h > i64::MAX as u64 {
                    return Err(
                        AppError::Config(
                            String::from_str("height must be positive and fit the grid range"),
                        ),
                    );
                }
            },
            None => {},
        }
        let grid = match parse_pattern(
            self.pattern.as_str(),
            READ_CHAR_ALIVE,
            READ_CHAR_DEAD,
        ) {
            Ok(g) => g,
            Err(e) => {
                return Err(e);
            },
        };
        if !check_new_fits(&grid, &self.settings) {
            return Err(
                AppError::Config(
                    String::from_str("the window does not fit the coordinate range"),
                ),
            );
        }
        Ok(Game::new(grid, self.settings))
    }

    /// Read a configuration from JSON text: an object with a string
    /// `pattern`, and an optional `settings` object whose optional
    /// members are `delay` (milliseconds), `view` (a mode name),
    /// `char_alive` and `char_dead` (single-character strings), and
    /// `width` and `height`. Missing members take the defaults.
    pub fn from_json(s: &str) -> (r: Result<GameConfig, AppError>)
        ensures
            r is Ok <==> config_of(s@) is Some,
            r matches Ok(c) ==> config_of(s@) == Some(c),
            r matches Err(e) ==> e is Config,
    {
        let parts = match json_extract(s) {
            Some(p) => p,
            None => {
                return Err(
                    AppError::Config(String::from_str("failed to read config from json")),
                );
            },
        };
        let ghost gparts = parts;
        let JsonParts {
            pattern: f_pattern,
            delay: f_delay,
            view: f_view,
            char_alive: f_alive,
            char_dead: f_dead,
            width: f_width,
            height: f_height,
        } = parts;
        let pattern: String = match f_pattern {
            Some(Some(t)) => t,
            Some(None) => {
                return Err(AppError::Config(String::from_str("'pattern' must be a string")));
            },
            None => {
                return Err(AppError::Config(String::from_str("config is missing 'pattern'")));
            },
        };
        let delay: Option<u64> = match f_delay {
            Some(Some(n)) => Some(n),
            Some(None) => {
                return Err(
                    AppError::Config(String::from_str("'delay' must be an unsigned integer")),
                );
            },
            None => None,
        };
        let view_name: Option<String> = match f_view {
            Some(Some(t)) => Some(t),
            Some(None) => {
                return Err(AppError::Config(String::from_str("'view' must be a string")));
            },
            None => None,
        };
        let alive_name: Option<String> = match f_alive {
            Some(Some(t)) => Some(t),
            Some(None) => {
                return Err(AppError::Config(String::from_str("'char_alive' must be a string")));
            },
            None => None,
        };
        let dead_name: Option<String> = match f_dead {
            Some(Some(t)) => Some(t),
            Some(None) => {
                return Err(AppError::Config(String::from_str("'char_dead' must be a string")));
            },
            None => None,
        };
        let width: Option<u64> = match f_width {
            Some(Some(n)) => Some(n),
            Some(None) => {
                return Err(
                    AppError::Config(String::from_str("'width' must be an unsigned integer")),
                );
            },
            None => None,
        };
        let height: Option<u64> = match f_height {
            Some(Some(n)) => Some(n),
            Some(None) => {
                return Err(
                    AppError::Config(String::from_str("'height' must be an unsigned integer")),
                );
            },
            None => None,
        };
        let view_ref: Option<&str> = match &view_name {
            Some(t) => Some(t.as_str()),
            None => None,
        };
        let alive_ref: Option<&str> = match &alive_name {
            Some(t) => Some(t.as_str()),
            None => None,
        };
        let dead_ref: Option<&str> = match &dead_name {
            Some(t) => Some(t.as_str()),
            None => None,
        };
        let settings = match settings_from_parts(delay, view_ref, alive_ref, dead_ref, width, height) {
            Ok(st) => st,
            Err(e) => {
                proof {
                    assert(!parts_shape_ok(gparts));
                }
                return Err(e);
            },
        };
        proof {
            assert(parts_shape_ok(gparts));
            assert(settings == settings_of_parts(gparts));
            assert(pattern == gparts.pattern->0->0);
        }
        Ok(GameConfig { settings, pattern })
    }
}

/// The view mode a name denotes.
pub open spec fn view_of_name(v: Seq<char>) -> View {
    if v == "centered"@ {
        View::Centered
    } else if v == "fixed"@ {
        View::Fixed
    } else {
        View::Follow
    }
}

/// Assemble Settings from the optional parts a configuration names,
/// applying the defaults for missing parts.
pub fn settings_from_parts(
    delay: Option<u64>,
    view_name: Option<&str>,
    alive: Option<&str>,
    dead: Option<&str>,
    width: Option<u64>,
    height: Option<u64>,
) -> (r: Result<Settings, AppError>)
    ensures
        r is Ok <==> ({
            &&& (view_name matches Some(v) ==> (v@ == "centered"@ || v@ == "fixed"@ || v@
                == "follow"@))
            &&& (alive matches Some(a) ==> a@.len() == 1)
            &&& (dead matches Some(d) ==> d@.len() == 1)
        }),
        r matches Ok(st) ==> ({
            &&& st.delay_ms == (match delay {
                Some(d) => d,
                None => 500u64,
            })
            &&& st.view == (match view_name {
                Some(v) => view_of_name(v@),
                None => View::Centered,
            })
            &&& st.char_alive == (match alive {
                Some(a) => a@[0],
                None => '#',
            })
            &&& st.char_dead == (match dead {
                Some(d) => d@[0],
                None => '-',
            })
            &&& st.width == width
            &&& st.height == height
        }),
        r matches Err(e) ==> e is Config,
{
    proof {
        lemma_view_names_distinct();
    }
    let view = match view_name {
        Some(vs) => match View::parse_name(vs) {
            Ok(v) => v,
            Err(e) => {
                return Err(e);
            },
        },
        None => View::Centered,
    };
    let char_alive = match alive {
        Some(a) => {
            if a.unicode_len() != 1 {
                return Err(
                    AppError::Config(
                        String::from_str("'char_alive' must be a single character"),
                    ),
                );
            }
            a.get_char(0)
        },
        None => '#',
    };
    let char_dead = match dead {
        Some(d) => {
            if d.unicode_len() != 1 {
                return Err(
                    AppError::Config(String::from_str("'char_dead' must be a single character")),
                );
            }
            d.get_char(0)
        },
        None => '-',
    };
    let delay_ms = match delay {
        Some(d) => d,
        None => 500,
    };
    Ok(Settings { delay_ms, view, char_alive, char_dead, width, height })
}

} // verus!
