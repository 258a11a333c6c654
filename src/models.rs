//! The entity model: clipboard items, their content types and metadata, the
//! request shapes of the store's operations, and the application settings.

use vstd::prelude::*;

verus! {

/// What kind of payload a clipboard item holds.
#[derive(Debug, Clone, Copy, PartialEq, Eq, Structural)]
pub enum ClipboardContentType {
    /// Plain text.
    Text,
    /// HTML markup.
    Html,
    /// Rich text.
    Rtf,
    /// An image.
    Image,
    /// One file.
    File,
    /// One folder.
    Folder,
    /// Several files or folders.
    Files,
}

/// The stored name of each content type.
pub open spec fn content_type_name(t: ClipboardContentType) -> Seq<char> {
    match t {
        ClipboardContentType::Text => "text"@,
        ClipboardContentType::Html => "html"@,
        ClipboardContentType::Rtf => "rtf"@,
        ClipboardContentType::Image => "image"@,
        ClipboardContentType::File => "file"@,
        ClipboardContentType::Folder => "folder"@,
        ClipboardContentType::Files => "files"@,
    }
}

impl ClipboardContentType {
    /// The stored name of this content type.
    pub fn as_name(&self) -> (r: &'static str)
        ensures
            r@ == content_type_name(*self),
    {
        match self {
            ClipboardContentType::Text => "text",
            ClipboardContentType::Html => "html",
            ClipboardContentType::Rtf => "rtf",
            ClipboardContentType::Image => "image",
            ClipboardContentType::File => "file",
            ClipboardContentType::Folder => "folder",
            ClipboardContentType::Files => "files",
        }
    }

    /// The content type with this stored name; an unknown name reads as text.
    pub fn from_name(name: &str) -> (r: ClipboardContentType)
        ensures
            content_type_name(r) == name@ || (r == ClipboardContentType::Text && forall|t: ClipboardContentType| content_type_name(t) != name@),
    {
        let all = [
            ClipboardContentType::Html,
            ClipboardContentType::Rtf,
            ClipboardContentType::Image,
            ClipboardContentType::File,
            ClipboardContentType::Folder,
            ClipboardContentType::Files,
        ];
        let mut i: usize = 0;
        while i < 6
            invariant
                i <= 6,
                all@ == seq![
                    ClipboardContentType::Html,
                    ClipboardContentType::Rtf,
                    ClipboardContentType::Image,
                    ClipboardContentType::File,
                    ClipboardContentType::Folder,
                    ClipboardContentType::Files,
                ],
                forall|j: int| 0 <= j < i ==> content_type_name(all@[j]) != name@,
            decreases 6 - i,
        {
            if crate::storage::is_text(name, all[i].as_name()) {
                return all[i];
            }
            i = i + 1;
        }
        if crate::storage::is_text(name, "text") {
            return ClipboardContentType::Text;
        }
        assert forall|t: ClipboardContentType| content_type_name(t) != name@ by {
            match t {
                ClipboardContentType::Text => {},
                ClipboardContentType::Html => { assert(all@[0] == t); },
                ClipboardContentType::Rtf => { assert(all@[1] == t); },
                ClipboardContentType::Image => { assert(all@[2] == t); },
                ClipboardContentType::File => { assert(all@[3] == t); },
                ClipboardContentType::Folder => { assert(all@[4] == t); },
                ClipboardContentType::Files => { assert(all@[5] == t); },
            }
        }
        ClipboardContentType::Text
    }
}

/// Optional type-specific side data of an item.
#[derive(Debug, Clone, Default)]
pub struct ClipboardMetadata {
    pub width: Option<u32>,
    pub height: Option<u32>,
    pub format: Option<String>,
    pub file_name: Option<String>,
    pub file_size: Option<u64>,
    pub mime_type: Option<String>,
    pub folder_name: Option<String>,
    pub item_count: Option<u32>,
}

/// A label definition.
#[derive(Debug, Clone)]
pub struct Tag {
    pub id: String,
    pub name: String,
    pub color: String,
}

/// One captured clipboard snapshot. `created_at` is a count of microseconds
/// since the Unix epoch, UTC.
#[derive(Debug, Clone)]
pub struct ClipboardItem {
    pub id: i64,
    pub content_type: ClipboardContentType,
    pub content: String,
    pub created_at: i64,
    pub content_hash: String,
    pub metadata: Option<ClipboardMetadata>,
    pub file_paths: Option<Vec<String>>,
    pub thumbnail_path: Option<String>,
    pub tags: Option<Vec<String>>,
}

/// A request to create an item.
#[derive(Debug)]
pub struct CreateClipboardItemRequest {
    pub content_type: ClipboardContentType,
    pub content: String,
}

/// A search request; `limit` defaults to 100.
#[derive(Debug)]
pub struct SearchRequest {
    pub query: String,
    pub limit: Option<i64>,
}

/// A page request; `limit` defaults to 100 and `offset` to 0.
#[derive(Debug)]
pub struct GetHistoryRequest {
    pub limit: Option<i64>,
    pub offset: Option<i64>,
}

/// A retention request: keep the `keep_count` most recent rows, or the rows
/// of the last `keep_days` days, or (with neither) none.
#[derive(Debug)]
pub struct ClearHistoryRequest {
    pub keep_count: Option<i64>,
    pub keep_days: Option<i64>,
}

/// The mathematical value of a metadata record.
pub ghost struct MetadataView {
    pub width: Option<u32>,
    pub height: Option<u32>,
    pub format: Option<Seq<char>>,
    pub file_name: Option<Seq<char>>,
    pub file_size: Option<u64>,
    pub mime_type: Option<Seq<char>>,
    pub folder_name: Option<Seq<char>>,
    pub item_count: Option<u32>,
}

/// The mathematical value of an item.
pub ghost struct ItemView {
    pub id: i64,
    pub content_type: ClipboardContentType,
    pub content: Seq<char>,
    pub created_at: i64,
    pub content_hash: Seq<char>,
    pub metadata: Option<MetadataView>,
    pub file_paths: Option<Seq<Seq<char>>>,
    pub thumbnail_path: Option<Seq<char>>,
    pub tags: Option<Seq<Seq<char>>>,
}

pub open spec fn opt_text(o: Option<String>) -> Option<Seq<char>> {
    match o {
        Some(s) => Some(s@),
        None => None,
    }
}

pub open spec fn texts(v: Seq<String>) -> Seq<Seq<char>> {
    v.map_values(|s: String| s@)
}

pub open spec fn opt_texts(o: Option<Vec<String>>) -> Option<Seq<Seq<char>>> {
    match o {
        Some(v) => Some(texts(v@)),
        None => None,
    }
}

impl View for ClipboardMetadata {
    type V = MetadataView;

    open spec fn view(&self) -> MetadataView {
        MetadataView {
            width: self.width,
            height: self.height,
            format: opt_text(self.format),
            file_name: opt_text(self.file_name),
            file_size: self.file_size,
            mime_type: opt_text(self.mime_type),
            folder_name: opt_text(self.folder_name),
            item_count: self.item_count,
        }
    }
}

pub open spec fn opt_metadata(o: Option<ClipboardMetadata>) -> Option<MetadataView> {
    match o {
        Some(m) => Some(m@),
        None => None,
    }
}

impl View for ClipboardItem {
    type V = ItemView;

    open spec fn view(&self) -> ItemView {
        ItemView {
            id: self.id,
            content_type: self.content_type,
            content: self.content@,
            created_at: self.created_at,
            content_hash: self.content_hash@,
            metadata: opt_metadata(self.metadata),
            file_paths: opt_texts(self.file_paths),
            thumbnail_path: opt_text(self.thumbnail_path),
            tags: opt_texts(self.tags),
        }
    }
}

/// A copy of an optional string.
pub fn copy_opt_text(o: &Option<String>) -> (r: Option<String>)
    ensures
        opt_text(r) == opt_text(*o),
{
    match o {
        Some(s) => Some(s.clone()),
        None => None,
    }
}

/// A copy of a list of strings.
pub fn copy_texts(v: &Vec<String>) -> (r: Vec<String>)
    ensures
        texts(r@) == texts(v@),
{
    let mut out: Vec<String> = Vec::new();
    let mut i: usize = 0;
    while i < v.len()
        invariant
            i <= v@.len(),
            out@.len() == i,
            forall|j: int| 0 <= j < i ==> out@[j]@ == v@[j]@,
        decreases v@.len() - i,
    {
        out.push(v[i].clone());
        i = i + 1;
    }
    assert(texts(out@) =~= texts(v@));
    out
}

/// A copy of an optional list of strings.
pub fn copy_opt_texts(o: &Option<Vec<String>>) -> (r: Option<Vec<String>>)
    ensures
        opt_texts(r) == opt_texts(*o),
{
    match o {
        Some(v) => Some(copy_texts(v)),
        None => None,
    }
}

impl ClipboardMetadata {
    /// A copy of this record.
    pub fn copy(&self) -> (r: ClipboardMetadata)
        ensures
            r@ == self@,
    {
        ClipboardMetadata {
            width: self.width,
            height: self.height,
            format: copy_opt_text(&self.format),
            file_name: copy_opt_text(&self.file_name),
            file_size: self.file_size,
            mime_type: copy_opt_text(&self.mime_type),
            folder_name: copy_opt_text(&self.folder_name),
            item_count: self.item_count,
        }
    }
}

/// A copy of an optional metadata record.
pub fn copy_opt_metadata(o: &Option<ClipboardMetadata>) -> (r: Option<ClipboardMetadata>)
    ensures
        opt_metadata(r) == opt_metadata(*o),
{
    match o {
        Some(m) => Some(m.copy()),
        None => None,
    }
}

impl ClipboardItem {
    /// A copy of this item.
    pub fn copy(&self) -> (r: ClipboardItem)
        ensures
            r@ == self@,
    {
        ClipboardItem {
            id: self.id,
            content_type: self.content_type,
            content: self.content.clone(),
            created_at: self.created_at,
            content_hash: self.content_hash.clone(),
            metadata: copy_opt_metadata(&self.metadata),
            file_paths: copy_opt_texts(&self.file_paths),
            thumbnail_path: copy_opt_text(&self.thumbnail_path),
            tags: copy_opt_texts(&self.tags),
        }
    }
}

} // verus!

verus! {

/// The views of a list of items, in order.
pub open spec fn views(v: Seq<ClipboardItem>) -> Seq<ItemView> {
    v.map_values(|i: ClipboardItem| i@)
}

} // verus!

verus! {

/// Process-wide configuration. `max_history_count` bounds the history and
/// `auto_sort` makes a repeated capture move its row to the top; the other
/// fields are user-interface preferences that the store only keeps.
#[derive(Debug, Clone)]
pub struct AppSettings {
    pub max_history_count: i64,
    pub auto_cleanup_days: i64,
    pub window_position: String,
    pub window_pos_x: Option<i32>,
    pub window_pos_y: Option<i32>,
    pub smart_activate: bool,
    pub copy_sound: bool,
    pub search_position: String,
    pub focus_search_on_activate: bool,
    pub click_action: String,
    pub double_click_action: String,
    pub paste_shortcut: String,
    pub hide_window_after_copy: bool,
    pub image_ocr: bool,
    pub copy_as_plain_text: bool,
    pub paste_as_plain_text: bool,
    pub confirm_delete: bool,
    pub auto_sort: bool,
    pub hotkey: String,
    pub auto_start: bool,
    pub number_key_shortcut: String,
}

/// The default settings.
pub open spec fn is_default_settings(s: AppSettings) -> bool {
    &&& s.max_history_count == 5000
    &&& s.auto_cleanup_days == 30
    &&& s.window_position@ == "remember"@
    &&& s.window_pos_x is None
    &&& s.window_pos_y is None
    &&& s.smart_activate
    &&& !s.copy_sound
    &&& s.search_position@ == "top"@
    &&& !s.focus_search_on_activate
    &&& s.click_action@ == "copy"@
    &&& s.double_click_action@ == "paste"@
    &&& s.paste_shortcut@ == "ctrl_v"@
    &&& !s.hide_window_after_copy
    &&& !s.image_ocr
    &&& !s.copy_as_plain_text
    &&& s.paste_as_plain_text
    &&& s.confirm_delete
    &&& !s.auto_sort
    &&& s.hotkey@ == "Alt+V"@
    &&& !s.auto_start
    &&& s.number_key_shortcut@ == "ctrl"@
}

impl Default for AppSettings {
    fn default() -> (r: AppSettings)
        ensures
            is_default_settings(r),
    {
        AppSettings {
            max_history_count: 5000,
            auto_cleanup_days: 30,
            window_position: String::from_str("remember"),
            window_pos_x: None,
            window_pos_y: None,
            smart_activate: true,
            copy_sound: false,
            search_position: String::from_str("top"),
            focus_search_on_activate: false,
            click_action: String::from_str("copy"),
            double_click_action: String::from_str("paste"),
            paste_shortcut: String::from_str("ctrl_v"),
            hide_window_after_copy: false,
            image_ocr: false,
            copy_as_plain_text: false,
            paste_as_plain_text: true,
            confirm_delete: true,
            auto_sort: false,
            hotkey: String::from_str("Alt+V"),
            auto_start: false,
            number_key_shortcut: String::from_str("ctrl"),
        }
    }
}

/// Two settings values hold the same data.
pub open spec fn same_settings(a: AppSettings, b: AppSettings) -> bool {
    &&& a.max_history_count == b.max_history_count
    &&& a.auto_cleanup_days == b.auto_cleanup_days
    &&& a.window_position@ == b.window_position@
    &&& a.window_pos_x == b.window_pos_x
    &&& a.window_pos_y == b.window_pos_y
    &&& a.smart_activate == b.smart_activate
    &&& a.copy_sound == b.copy_sound
    &&& a.search_position@ == b.search_position@
    &&& a.focus_search_on_activate == b.focus_search_on_activate
    &&& a.click_action@ == b.click_action@
    &&& a.double_click_action@ == b.double_click_action@
    &&& a.paste_shortcut@ == b.paste_shortcut@
    &&& a.hide_window_after_copy == b.hide_window_after_copy
    &&& a.image_ocr == b.image_ocr
    &&& a.copy_as_plain_text == b.copy_as_plain_text
    &&& a.paste_as_plain_text == b.paste_as_plain_text
    &&& a.confirm_delete == b.confirm_delete
    &&& a.auto_sort == b.auto_sort
    &&& a.hotkey@ == b.hotkey@
    &&& a.auto_start == b.auto_start
    &&& a.number_key_shortcut@ == b.number_key_shortcut@
}

impl AppSettings {
    /// A copy of these settings.
    pub fn copy(&self) -> (r: AppSettings)
        ensures
            same_settings(r, *self),
    {
        AppSettings {
            max_history_count: self.max_history_count,
            auto_cleanup_days: self.auto_cleanup_days,
            window_position: self.window_position.clone(),
            window_pos_x: self.window_pos_x,
            window_pos_y: self.window_pos_y,
            smart_activate: self.smart_activate,
            copy_sound: self.copy_sound,
            search_position: self.search_position.clone(),
            focus_search_on_activate: self.focus_search_on_activate,
            click_action: self.click_action.clone(),
            double_click_action: self.double_click_action.clone(),
            paste_shortcut: self.paste_shortcut.clone(),
            hide_window_after_copy: self.hide_window_after_copy,
            image_ocr: self.image_ocr,
            copy_as_plain_text: self.copy_as_plain_text,
            paste_as_plain_text: self.paste_as_plain_text,
            confirm_delete: self.confirm_delete,
            auto_sort: self.auto_sort,
            hotkey: self.hotkey.clone(),
            auto_start: self.auto_start,
            number_key_shortcut: self.number_key_shortcut.clone(),
        }
    }
}

} // verus!
