//! The fonts that an action of the program is about.
use crate::action::Action;
use crate::error::Error;
use crate::installed::InstalledFonts;
use crate::installer::{idle_filters, is_filtered, select_names, Installer};
use crate::ordered::{ascending, insert_ordered};
use crate::text::{
    after_first, before_first, count_char, count_of, same_text, split_at_first, texts_of,
};
use vstd::prelude::*;
use vstd::string::*;

verus! {

/// Why a font could not be made from what was asked for.
#[derive(Debug, PartialEq, Eq)]
pub enum FontParseError {
    /// The descriptor of the font was refused.
    Generic(Error),
    /// What was asked for is no name, or a name with more than one tag.
    InvalidName,
}

/// A font that an action is about.
#[derive(Debug)]
pub struct Font {
    /// The name of the font.
    pub name: String,
    /// The item made from the descriptor of the font, where the action needs
    /// it.
    pub installer: Option<Installer>,
    /// The tag that was asked for, if one was.
    pub override_version: Option<String>,
}

/// Whether `text` asks for a font: it is not empty, and holds at most one
/// `:`.
pub open spec fn asks_for_font(text: Seq<char>) -> bool {
    text.len() > 0 && count_of(text, ':') <= 1
}

impl FontParseError {
    /// Returns what the error says.
    pub fn message(&self) -> (r: &'static str)
        ensures
            self is InvalidName ==> r@ == "The name is invalid"@,
            self is Generic ==> r@ == "The installer is invalid"@,
    {
        match self {
            FontParseError::Generic(_) => "The installer is invalid",
            FontParseError::InvalidName => "The name is invalid",
        }
    }
}

impl Font {
    /// Makes a font from what was asked for: a name, or a name, `:` and a tag.
    /// The font has no item yet.
    pub fn parse(name: &str) -> (r: Result<Self, FontParseError>)
        ensures
            if asks_for_font(name@) {
                r matches Ok(font) && font.name@ == before_first(name@, ':') && font.installer
                    is None && crate::source::text_of(font.override_version) == after_first(
                    name@,
                    ':',
                )
            } else {
                r matches Err(error) && error is InvalidName
            },
    {
        if name.unicode_len() == 0 || count_char(name, ':') > 1 {
            return Err(FontParseError::InvalidName);
        }
        let (front, version) = split_at_first(name, ':');
        Ok(
            Font {
                name: front.to_owned(),
                installer: None,
                override_version: match version {
                    Some(version) => Some(version.to_owned()),
                    None => None,
                },
            },
        )
    }

    /// Returns the font as the program shows it: its name, and behind a space
    /// the tag that was asked for, if one was.
    pub fn describe(&self) -> (r: String)
        ensures
            r@ == match self.override_version {
                Some(version) => self.name@ + " "@ + version@,
                None => self.name@,
            },
    {
        let mut out = self.name.clone();
        match &self.override_version {
            Some(version) => {
                out.append(" ");
                out.append(version.as_str());
            },
            None => {},
        }
        out
    }
}

/// What the program has to say about what was asked for.
#[derive(Debug, Clone, Copy, PartialEq, Eq, Structural)]
pub enum Notice {
    /// Nothing.
    Nothing,
    /// The action needs fonts, and none were asked for.
    NoFonts,
    /// The usage of the list action was asked for.
    ListUsage,
    /// What is to be listed is not known.
    CannotList,
}

/// Where the fonts of an action come from.
#[derive(Debug, Clone, Copy, PartialEq, Eq, Structural)]
pub enum Origin {
    /// The action is about no fonts.
    Nowhere,
    /// From the descriptors that are available.
    Installers,
    /// From the items that are installed.
    Installed,
    /// From both.
    Everywhere,
}

/// The fonts that an action is about.
#[derive(Debug)]
pub struct Actionable {
    /// What was asked for, resolved to names, with the tags that the filters
    /// carry: in order, each once.
    pub fonts: Vec<String>,
    /// Whether the action needs the item of each font.
    pub needs_installer: bool,
    /// What there is to say.
    pub notice: Notice,
    /// The filters that selected no descriptor, where descriptors were
    /// looked at.
    pub no_installers: Vec<String>,
    /// The filters that selected no installed item, where installed items
    /// were looked at.
    pub not_installed: Vec<String>,
}

/// Whether an action needs the item of each font it is about.
pub open spec fn needs_installer(action: Action) -> bool {
    action == Action::Install || action == Action::Reinstall || action == Action::Update
}

/// Whether an action is refused where no fonts are asked for.
pub open spec fn needs_filters(action: Action) -> bool {
    action == Action::Install || action == Action::Reinstall || action == Action::Remove
}

/// Where the fonts of an action come from, given the first of the filters.
pub open spec fn origin_of(action: Action, first: Option<Seq<char>>) -> Origin {
    match action {
        Action::Install => if first is Some {
            Origin::Installers
        } else {
            Origin::Nowhere
        },
        Action::Reinstall | Action::Remove => if first is Some {
            Origin::Installed
        } else {
            Origin::Nowhere
        },
        Action::Update => Origin::Installed,
        Action::List => match first {
            None => Origin::Everywhere,
            Some(item) => if item == "installed"@ {
                Origin::Installed
            } else if item == "available"@ || item == "installers"@ {
                Origin::Installers
            } else if item == "all"@ {
                Origin::Everywhere
            } else {
                Origin::Nowhere
            },
        },
        _ => Origin::Nowhere,
    }
}

/// What there is to say about what was asked for.
pub open spec fn notice_of(action: Action, first: Option<Seq<char>>) -> Notice {
    if needs_filters(action) && first is None {
        Notice::NoFonts
    } else if action == Action::List && first is Some && origin_of(action, first)
        == Origin::Nowhere {
        if first->0 == "help"@ {
            Notice::ListUsage
        } else {
            Notice::CannotList
        }
    } else {
        Notice::Nothing
    }
}

/// The filters by which the fonts of an action are selected: what was asked
/// for; for an update without filters, and for a list, the pattern `*`.
pub open spec fn filters_of(action: Action, filters: Seq<Seq<char>>) -> Seq<Seq<char>> {
    if action == Action::List || (action == Action::Update && filters.len() == 0) {
        seq![seq!['*']]
    } else {
        filters
    }
}

/// The first of `filters`, if there is one.
pub open spec fn first_of(filters: Seq<Seq<char>>) -> Option<Seq<char>> {
    if filters.len() > 0 {
        Some(filters[0])
    } else {
        None
    }
}

/// Whether `text` is among the fonts of an action.
pub open spec fn is_actionable_font(
    text: Seq<char>,
    action: Action,
    filters: Seq<Seq<char>>,
    available: Seq<Seq<char>>,
    installed: Seq<Seq<char>>,
) -> bool {
    let used = filters_of(action, filters);
    match origin_of(action, first_of(filters)) {
        Origin::Nowhere => false,
        Origin::Installers => is_filtered(text, available, used, true),
        Origin::Installed => is_filtered(text, installed, used, false),
        Origin::Everywhere => is_filtered(text, available, used, true) || is_filtered(
            text,
            installed,
            used,
            false,
        ),
    }
}

/// Whether a font that was made stays among those that the action is done
/// for: for an installation or an update without the order to install anew,
/// it has to have something to install; else it only has to have its item
/// where the action needs one.
pub open spec fn stays_actionable(
    action: Action,
    reinstall: bool,
    has_installer: bool,
    has_updates: bool,
) -> bool {
    if (action == Action::Update || action == Action::Install) && !reinstall {
        has_installer && has_updates
    } else {
        !needs_installer(action) || has_installer
    }
}

impl Font {
    /// Finds the fonts that an action is about: what the filters select of
    /// the descriptors `available` or of the installed items, as the action
    /// asks.
    pub fn get_actionable_fonts(
        action: Action,
        filters: &[String],
        available: &[String],
        installed_fonts: &InstalledFonts,
    ) -> (r: Actionable)
        ensures
            r.needs_installer == needs_installer(action),
            r.notice == notice_of(action, first_of(texts_of(filters@))),
            ascending(texts_of(r.fonts@)),
            forall|text: Seq<char>|
                #![trigger texts_of(r.fonts@).contains(text)]
                texts_of(r.fonts@).contains(text) <==> is_actionable_font(
                    text,
                    action,
                    texts_of(filters@),
                    texts_of(available@),
                    installed_fonts.names(),
                ),
            texts_of(r.no_installers@) == match origin_of(action, first_of(texts_of(filters@))) {
                Origin::Installers | Origin::Everywhere => idle_filters(
                    texts_of(available@),
                    filters_of(action, texts_of(filters@)),
                    true,
                ),
                _ => Seq::empty(),
            },
            texts_of(r.not_installed@) == match origin_of(action, first_of(texts_of(filters@))) {
                Origin::Installed | Origin::Everywhere => idle_filters(
                    installed_fonts.names(),
                    filters_of(action, texts_of(filters@)),
                    false,
                ),
                _ => Seq::empty(),
            },
    {
        let ghost asked = texts_of(filters@);
        let needs = match action {
            Action::Install | Action::Reinstall | Action::Update => true,
            _ => false,
        };
        let mut star: Vec<String> = Vec::new();
        star.push("*".to_owned());
        proof {
            reveal_strlit("*");
            assert(star@[0]@ =~= seq!['*']);
            assert(texts_of(star@) =~= seq![seq!['*']]);
        }
        let nothing: Vec<String> = Vec::new();
        assert(texts_of(nothing@) =~= Seq::<Seq<char>>::empty());
        let mut origin = Origin::Nowhere;
        let mut notice = Notice::Nothing;
        let mut used: &[String] = filters;
        if filters.len() > 0 {
            assert(asked[0] == filters@[0]@);
        }
        match action {
            Action::Install => {
                if filters.len() == 0 {
                    notice = Notice::NoFonts;
                } else {
                    origin = Origin::Installers;
                }
            },
            Action::Reinstall | Action::Remove => {
                if filters.len() == 0 {
                    notice = Notice::NoFonts;
                } else {
                    origin = Origin::Installed;
                }
            },
            Action::Update => {
                origin = Origin::Installed;
                if filters.len() == 0 {
                    used = star.as_slice();
                }
            },
            Action::List => {
                used = star.as_slice();
                if filters.len() == 0 {
                    origin = Origin::Everywhere;
                } else {
                    let item = filters[0].as_str();
                    if same_text(item, "installed") {
                        origin = Origin::Installed;
                    } else if same_text(item, "available") || same_text(item, "installers") {
                        origin = Origin::Installers;
                    } else if same_text(item, "all") {
                        origin = Origin::Everywhere;
                    } else if same_text(item, "help") {
                        notice = Notice::ListUsage;
                    } else {
                        notice = Notice::CannotList;
                    }
                }
            },
            _ => {},
        }
        assert(origin == origin_of(action, first_of(asked)));
        assert(texts_of(used@) == filters_of(action, asked) || origin == Origin::Nowhere);
        let (fonts, no_installers, not_installed) = match origin {
            Origin::Nowhere => (Vec::new(), Vec::new(), Vec::new()),
            Origin::Installers => {
                let (fonts, idle) = select_names(available, used, true);
                (fonts, idle, Vec::new())
            },
            Origin::Installed => {
                let names = installed_fonts.get_names();
                let (fonts, idle) = select_names(names.as_slice(), used, false);
                (fonts, Vec::new(), idle)
            },
            Origin::Everywhere => {
                let names = installed_fonts.get_names();
                let (mut all, no_installers) = select_names(available, used, true);
                let (more, not_installed) = select_names(names.as_slice(), used, false);
                let ghost first = texts_of(all@);
                let mut i: usize = 0;
                while i < more.len()
                    invariant
                        0 <= i <= more@.len(),
                        ascending(texts_of(all@)),
                        forall|text: Seq<char>|
                            #![trigger texts_of(all@).contains(text)]
                            texts_of(all@).contains(text) <==> (first.contains(text) || exists|
                                k: int,
                            |
                                0 <= k < i && #[trigger] texts_of(more@)[k] == text),
                    decreases more@.len() - i,
                {
                    let ghost earlier = texts_of(all@);
                    let ghost added = more@[i as int]@;
                    insert_ordered(&mut all, more[i].clone());
                    assert forall|text: Seq<char>|
                        #![trigger texts_of(all@).contains(text)]
                        texts_of(all@).contains(text) <==> (first.contains(text) || exists|k: int|
                            0 <= k < i + 1 && #[trigger] texts_of(more@)[k] == text) by {
                        assert(texts_of(all@).contains(text) <==> (text == added
                            || earlier.contains(text)));
                        if text == added {
                            assert(texts_of(more@)[i as int] == text);
                        }
                        if earlier.contains(text) && !first.contains(text) {
                            let k = choose|k: int|
                                0 <= k < i && #[trigger] texts_of(more@)[k] == text;
                            assert(0 <= k < i + 1);
                        }
                    }
                    i += 1;
                }
                assert forall|text: Seq<char>|
                    #![trigger texts_of(all@).contains(text)]
                    texts_of(all@).contains(text) <==> (first.contains(text) || texts_of(
                        more@,
                    ).contains(text)) by {
                    if texts_of(more@).contains(text) {
                        let k = choose|k: int|
                            0 <= k < texts_of(more@).len() && texts_of(more@)[k] == text;
                        assert(texts_of(more@)[k] == text);
                    }
                }
                (all, no_installers, not_installed)
            },
        };
        assert(texts_of(Seq::<String>::empty()) =~= Seq::<Seq<char>>::empty());
        Actionable { fonts, needs_installer: needs, notice, no_installers, not_installed }
    }

    /// Whether a font that was made stays among those that the action is
    /// done for. `has_updates` says whether its item has something to
    /// install.
    pub fn is_actionable(&self, action: Action, reinstall: bool, has_updates: bool) -> (r: bool)
        ensures
            r == stays_actionable(action, reinstall, self.installer is Some, has_updates),
    {
        let has_installer = self.installer.is_some();
        let installs = match action {
            Action::Update | Action::Install => true,
            _ => false,
        };
        let needs = match action {
            Action::Install | Action::Reinstall | Action::Update => true,
            _ => false,
        };
        if installs && !reinstall {
            has_installer && has_updates
        } else {
            !needs || has_installer
        }
    }
}

} // verus!
