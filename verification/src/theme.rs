//! The app's theme: semantic class recipes for surfaces, text, accents and
//! interactive states. Layout, spacing and sizing stay with each component.
use vstd::prelude::*;

verus! {

/// The groups of surfaces that the theme styles.
#[derive(Debug, Clone, Copy, PartialEq, Eq, Hash, Structural)]
pub enum ThemeSurfaceGroup {
    RootApp,
    Sidebar,
    WritingSurface,
    Preview,
    ModalSurface,
    TextRole,
    MutedText,
    Border,
    Divider,
    Accent,
    Selection,
    Focus,
    Hover,
    Danger,
}

/// What stays local to a component rather than in the theme.
#[derive(Debug, Clone, Copy, PartialEq, Eq, Hash, Structural)]
pub enum LocalUiConcern {
    Layout,
    Spacing,
    Sizing,
    ResponsiveBehavior,
    ComponentStructure,
}

/// The surface groups whose look the theme owns.
pub fn load_bearing_theme_groups() -> (r: Vec<ThemeSurfaceGroup>)
    ensures
        r@ == seq![
            ThemeSurfaceGroup::RootApp,
            ThemeSurfaceGroup::Sidebar,
            ThemeSurfaceGroup::WritingSurface,
            ThemeSurfaceGroup::Preview,
            ThemeSurfaceGroup::ModalSurface,
            ThemeSurfaceGroup::TextRole,
            ThemeSurfaceGroup::MutedText,
            ThemeSurfaceGroup::Border,
            ThemeSurfaceGroup::Divider,
            ThemeSurfaceGroup::Accent,
            ThemeSurfaceGroup::Selection,
            ThemeSurfaceGroup::Focus,
            ThemeSurfaceGroup::Hover,
            ThemeSurfaceGroup::Danger,
        ],
{
    let r = vec![
        ThemeSurfaceGroup::RootApp,
        ThemeSurfaceGroup::Sidebar,
        ThemeSurfaceGroup::WritingSurface,
        ThemeSurfaceGroup::Preview,
        ThemeSurfaceGroup::ModalSurface,
        ThemeSurfaceGroup::TextRole,
        ThemeSurfaceGroup::MutedText,
        ThemeSurfaceGroup::Border,
        ThemeSurfaceGroup::Divider,
        ThemeSurfaceGroup::Accent,
        ThemeSurfaceGroup::Selection,
        ThemeSurfaceGroup::Focus,
        ThemeSurfaceGroup::Hover,
        ThemeSurfaceGroup::Danger,
    ];
    assert(r@ =~= seq![
        ThemeSurfaceGroup::RootApp,
        ThemeSurfaceGroup::Sidebar,
        ThemeSurfaceGroup::WritingSurface,
        ThemeSurfaceGroup::Preview,
        ThemeSurfaceGroup::ModalSurface,
        ThemeSurfaceGroup::TextRole,
        ThemeSurfaceGroup::MutedText,
        ThemeSurfaceGroup::Border,
        ThemeSurfaceGroup::Divider,
        ThemeSurfaceGroup::Accent,
        ThemeSurfaceGroup::Selection,
        ThemeSurfaceGroup::Focus,
        ThemeSurfaceGroup::Hover,
        ThemeSurfaceGroup::Danger,
    ]);
    r
}

/// The concerns that components keep to themselves.
pub fn local_ui_concerns() -> (r: Vec<LocalUiConcern>)
    ensures
        r@ == seq![
            LocalUiConcern::Layout,
            LocalUiConcern::Spacing,
            LocalUiConcern::Sizing,
            LocalUiConcern::ResponsiveBehavior,
            LocalUiConcern::ComponentStructure,
        ],
{
    let r = vec![
        LocalUiConcern::Layout,
        LocalUiConcern::Spacing,
        LocalUiConcern::Sizing,
        LocalUiConcern::ResponsiveBehavior,
        LocalUiConcern::ComponentStructure,
    ];
    assert(r@ =~= seq![
        LocalUiConcern::Layout,
        LocalUiConcern::Spacing,
        LocalUiConcern::Sizing,
        LocalUiConcern::ResponsiveBehavior,
        LocalUiConcern::ComponentStructure,
    ]);
    r
}

/// A themed surface.
#[derive(Debug, Clone, Copy, PartialEq, Eq, Structural)]
pub enum ThemeSurface {
    RootApp,
    WorkspaceFrame,
    Sidebar,
    EditorChrome,
    WritingSurface,
    Preview,
    SplitPreview,
    ModalPanel,
    ModalChrome,
}

/// The classes of each ThemeSurface.
pub open spec fn surface_classes(v: ThemeSurface) -> Seq<char> {
    match v {
        ThemeSurface::RootApp => "transition-colors duration-300"@,
        ThemeSurface::WorkspaceFrame => "border-apple-notebook-border dark:border-apple-notebook-darkBorder"@,
        ThemeSurface::Sidebar => "bg-apple-notebook-sidebar border-apple-notebook-borderStrong dark:bg-apple-notebook-darkSidebar dark:border-apple-notebook-darkBorder"@,
        ThemeSurface::EditorChrome => "bg-apple-notebook-surface border-apple-notebook-border dark:bg-apple-notebook-darkSurface dark:border-apple-notebook-darkBorder transition-colors"@,
        ThemeSurface::WritingSurface => "bg-apple-notebook-surface dark:bg-apple-notebook-darkSurface"@,
        ThemeSurface::Preview => "bg-apple-notebook-surface text-apple-notebook-graphite prose-yellow dark:bg-apple-notebook-darkSurface dark:text-apple-notebook-frame dark:prose-invert"@,
        ThemeSurface::SplitPreview => "bg-apple-notebook-frame text-apple-notebook-graphite prose-yellow border-apple-notebook-border dark:bg-apple-notebook-darkSidebar dark:text-apple-notebook-frame dark:prose-invert dark:border-apple-notebook-darkBorder"@,
        ThemeSurface::ModalPanel => "bg-apple-notebook-surface border-apple-notebook-border dark:bg-apple-notebook-darkSidebar dark:border-apple-notebook-darkBorder"@,
        ThemeSurface::ModalChrome => "bg-apple-notebook-sidebar border-apple-notebook-border dark:bg-white/5 dark:border-apple-notebook-darkBorder"@,
    }
}

impl ThemeSurface {
    /// The classes of this role.
    pub fn classes(self) -> (r: &'static str)
        ensures
            r@ == surface_classes(self),
    {
        match self {
            ThemeSurface::RootApp => "transition-colors duration-300",
            ThemeSurface::WorkspaceFrame => "border-apple-notebook-border dark:border-apple-notebook-darkBorder",
            ThemeSurface::Sidebar => "bg-apple-notebook-sidebar border-apple-notebook-borderStrong dark:bg-apple-notebook-darkSidebar dark:border-apple-notebook-darkBorder",
            ThemeSurface::EditorChrome => "bg-apple-notebook-surface border-apple-notebook-border dark:bg-apple-notebook-darkSurface dark:border-apple-notebook-darkBorder transition-colors",
            ThemeSurface::WritingSurface => "bg-apple-notebook-surface dark:bg-apple-notebook-darkSurface",
            ThemeSurface::Preview => "bg-apple-notebook-surface text-apple-notebook-graphite prose-yellow dark:bg-apple-notebook-darkSurface dark:text-apple-notebook-frame dark:prose-invert",
            ThemeSurface::SplitPreview => "bg-apple-notebook-frame text-apple-notebook-graphite prose-yellow border-apple-notebook-border dark:bg-apple-notebook-darkSidebar dark:text-apple-notebook-frame dark:prose-invert dark:border-apple-notebook-darkBorder",
            ThemeSurface::ModalPanel => "bg-apple-notebook-surface border-apple-notebook-border dark:bg-apple-notebook-darkSidebar dark:border-apple-notebook-darkBorder",
            ThemeSurface::ModalChrome => "bg-apple-notebook-sidebar border-apple-notebook-border dark:bg-white/5 dark:border-apple-notebook-darkBorder",
        }
    }
}

/// A text colour role.
#[derive(Debug, Clone, Copy, PartialEq, Eq, Structural)]
pub enum ThemeText {
    Primary,
    Muted,
    Subtle,
    Placeholder,
}

/// The classes of each ThemeText.
pub open spec fn text_classes(v: ThemeText) -> Seq<char> {
    match v {
        ThemeText::Primary => "text-apple-notebook-graphite dark:text-apple-notebook-frame"@,
        ThemeText::Muted => "text-apple-notebook-muted dark:text-gray-400"@,
        ThemeText::Subtle => "text-gray-400 dark:text-gray-500"@,
        ThemeText::Placeholder => "placeholder:text-gray-400 dark:placeholder:text-gray-600"@,
    }
}

impl ThemeText {
    /// The classes of this role.
    pub fn classes(self) -> (r: &'static str)
        ensures
            r@ == text_classes(self),
    {
        match self {
            ThemeText::Primary => "text-apple-notebook-graphite dark:text-apple-notebook-frame",
            ThemeText::Muted => "text-apple-notebook-muted dark:text-gray-400",
            ThemeText::Subtle => "text-gray-400 dark:text-gray-500",
            ThemeText::Placeholder => "placeholder:text-gray-400 dark:placeholder:text-gray-600",
        }
    }
}

/// An accent treatment.
#[derive(Debug, Clone, Copy, PartialEq, Eq, Structural)]
pub enum ThemeAccent {
    PrimaryText,
    PrimaryFill,
    Selection,
    Highlight,
    Focus,
}

/// The classes of each ThemeAccent.
pub open spec fn accent_classes(v: ThemeAccent) -> Seq<char> {
    match v {
        ThemeAccent::PrimaryText => "text-amber-700 hover:text-amber-800 dark:text-apple-notebook-amber dark:hover:text-amber-300"@,
        ThemeAccent::PrimaryFill => "bg-apple-yellow text-apple-notebook-graphite hover:bg-apple-notebook-amber"@,
        ThemeAccent::Selection => "selection:bg-apple-notebook-selected"@,
        ThemeAccent::Highlight => "bg-apple-notebook-selected"@,
        ThemeAccent::Focus => "focus:outline-none focus:ring-2 focus:ring-apple-notebook-amber focus:ring-offset-2 dark:focus:ring-offset-apple-notebook-darkSurface"@,
    }
}

impl ThemeAccent {
    /// The classes of this role.
    pub fn classes(self) -> (r: &'static str)
        ensures
            r@ == accent_classes(self),
    {
        match self {
            ThemeAccent::PrimaryText => "text-amber-700 hover:text-amber-800 dark:text-apple-notebook-amber dark:hover:text-amber-300",
            ThemeAccent::PrimaryFill => "bg-apple-yellow text-apple-notebook-graphite hover:bg-apple-notebook-amber",
            ThemeAccent::Selection => "selection:bg-apple-notebook-selected",
            ThemeAccent::Highlight => "bg-apple-notebook-selected",
            ThemeAccent::Focus => "focus:outline-none focus:ring-2 focus:ring-apple-notebook-amber focus:ring-offset-2 dark:focus:ring-offset-apple-notebook-darkSurface",
        }
    }
}

/// An interactive state treatment.
#[derive(Debug, Clone, Copy, PartialEq, Eq, Structural)]
pub enum ThemeState {
    SidebarToggle,
    SegmentedIdle,
    SegmentedActive,
    ToolbarButton,
    NoteRowIdle,
    NoteRowSelected,
    NoteActionMenu,
    NoteActionButton,
    NoteMenuItem,
    TagPill,
    FilterPill,
    SecondaryButton,
    DangerButton,
    DangerMenuItem,
    EmptyState,
    EmptyIllustration,
}

/// The classes of each ThemeState.
pub open spec fn state_classes(v: ThemeState) -> Seq<char> {
    match v {
        ThemeState::SidebarToggle => "text-gray-400 hover:text-gray-600 dark:hover:text-gray-200 transition-colors"@,
        ThemeState::SegmentedIdle => "border bg-apple-notebook-surface border-apple-notebook-border text-apple-notebook-muted hover:border-apple-notebook-borderStrong dark:bg-white/5 dark:border-apple-notebook-darkBorder dark:text-gray-400 dark:hover:border-gray-500"@,
        ThemeState::SegmentedActive => "border bg-apple-notebook-selected border-apple-notebook-amberBorder text-amber-800 dark:bg-apple-notebook-amber/20 dark:border-apple-notebook-amber dark:text-apple-notebook-amber"@,
        ThemeState::ToolbarButton => "hover:bg-apple-notebook-border dark:hover:bg-white/5 text-apple-notebook-muted dark:text-gray-400"@,
        ThemeState::NoteRowIdle => "border-apple-notebook-border dark:border-apple-notebook-darkBorder hover:bg-apple-notebook-border dark:hover:bg-white/5"@,
        ThemeState::NoteRowSelected => "border-apple-notebook-amberBorder bg-apple-notebook-selected ring-1 ring-apple-notebook-amber/30 dark:border-apple-notebook-amber dark:bg-apple-notebook-amber/25 dark:ring-apple-notebook-amber/25"@,
        ThemeState::NoteActionMenu => "border-apple-notebook-border bg-apple-notebook-surface dark:border-apple-notebook-darkBorder dark:bg-apple-notebook-darkSidebar"@,
        ThemeState::NoteActionButton => "text-gray-400 hover:text-apple-notebook-graphite hover:bg-apple-notebook-border dark:hover:text-gray-200 dark:hover:bg-white/10"@,
        ThemeState::NoteMenuItem => "text-apple-notebook-graphite hover:bg-apple-notebook-border dark:text-gray-200 dark:hover:bg-white/10"@,
        ThemeState::TagPill => "bg-apple-notebook-border text-apple-notebook-muted hover:bg-apple-notebook-borderStrong dark:bg-white/10 dark:text-gray-400 dark:hover:bg-white/20"@,
        ThemeState::FilterPill => "bg-apple-notebook-amber text-apple-notebook-graphite"@,
        ThemeState::SecondaryButton => "bg-apple-notebook-border text-apple-notebook-graphite hover:bg-apple-notebook-borderStrong focus:outline-none focus:ring-2 focus:ring-apple-notebook-amber dark:bg-white/10 dark:text-gray-300 dark:hover:bg-white/20"@,
        ThemeState::DangerButton => "bg-red-600 text-apple-notebook-surface hover:bg-red-700 focus:outline-none focus:ring-2 focus:ring-red-500"@,
        ThemeState::DangerMenuItem => "text-red-600 hover:bg-red-50 dark:text-red-400 dark:hover:bg-red-500/10"@,
        ThemeState::EmptyState => "text-gray-500 dark:text-gray-400"@,
        ThemeState::EmptyIllustration => "text-apple-yellow"@,
    }
}

impl ThemeState {
    /// The classes of this role.
    pub fn classes(self) -> (r: &'static str)
        ensures
            r@ == state_classes(self),
    {
        match self {
            ThemeState::SidebarToggle => "text-gray-400 hover:text-gray-600 dark:hover:text-gray-200 transition-colors",
            ThemeState::SegmentedIdle => "border bg-apple-notebook-surface border-apple-notebook-border text-apple-notebook-muted hover:border-apple-notebook-borderStrong dark:bg-white/5 dark:border-apple-notebook-darkBorder dark:text-gray-400 dark:hover:border-gray-500",
            ThemeState::SegmentedActive => "border bg-apple-notebook-selected border-apple-notebook-amberBorder text-amber-800 dark:bg-apple-notebook-amber/20 dark:border-apple-notebook-amber dark:text-apple-notebook-amber",
            ThemeState::ToolbarButton => "hover:bg-apple-notebook-border dark:hover:bg-white/5 text-apple-notebook-muted dark:text-gray-400",
            ThemeState::NoteRowIdle => "border-apple-notebook-border dark:border-apple-notebook-darkBorder hover:bg-apple-notebook-border dark:hover:bg-white/5",
            ThemeState::NoteRowSelected => "border-apple-notebook-amberBorder bg-apple-notebook-selected ring-1 ring-apple-notebook-amber/30 dark:border-apple-notebook-amber dark:bg-apple-notebook-amber/25 dark:ring-apple-notebook-amber/25",
            ThemeState::NoteActionMenu => "border-apple-notebook-border bg-apple-notebook-surface dark:border-apple-notebook-darkBorder dark:bg-apple-notebook-darkSidebar",
            ThemeState::NoteActionButton => "text-gray-400 hover:text-apple-notebook-graphite hover:bg-apple-notebook-border dark:hover:text-gray-200 dark:hover:bg-white/10",
            ThemeState::NoteMenuItem => "text-apple-notebook-graphite hover:bg-apple-notebook-border dark:text-gray-200 dark:hover:bg-white/10",
            ThemeState::TagPill => "bg-apple-notebook-border text-apple-notebook-muted hover:bg-apple-notebook-borderStrong dark:bg-white/10 dark:text-gray-400 dark:hover:bg-white/20",
            ThemeState::FilterPill => "bg-apple-notebook-amber text-apple-notebook-graphite",
            ThemeState::SecondaryButton => "bg-apple-notebook-border text-apple-notebook-graphite hover:bg-apple-notebook-borderStrong focus:outline-none focus:ring-2 focus:ring-apple-notebook-amber dark:bg-white/10 dark:text-gray-300 dark:hover:bg-white/20",
            ThemeState::DangerButton => "bg-red-600 text-apple-notebook-surface hover:bg-red-700 focus:outline-none focus:ring-2 focus:ring-red-500",
            ThemeState::DangerMenuItem => "text-red-600 hover:bg-red-50 dark:text-red-400 dark:hover:bg-red-500/10",
            ThemeState::EmptyState => "text-gray-500 dark:text-gray-400",
            ThemeState::EmptyIllustration => "text-apple-yellow",
        }
    }
}

} // verus!
