//! The kinds of thing a front end lets its user search for.

use vstd::prelude::*;
use vstd::string::StringExecFns;

verus! {

/// A kind of search result that a front end offers as a filter.
#[derive(PartialEq, Eq, Structural, Clone, Copy, Debug)]
pub enum SearchCategory {
    All,
    /// What lies on the desktop, and what can be launched.
    Desktop,
    Folder,
    Doc,
    Code,
    Image,
    Video,
    Audio,
}

impl SearchCategory {
    /// The icon of each category.
    pub open spec fn icon_text(self) -> Seq<char> {
        match self {
            SearchCategory::All => "🔍"@,
            SearchCategory::Desktop => "💻"@,
            SearchCategory::Video => "🎬"@,
            SearchCategory::Image => "🖼"@,
            SearchCategory::Audio => "🎵"@,
            SearchCategory::Code => "🦀"@,
            SearchCategory::Doc => "📄"@,
            SearchCategory::Folder => "📁"@,
        }
    }

    /// The label of each category.
    pub open spec fn label_text(self) -> Seq<char> {
        match self {
            SearchCategory::All => "全部"@,
            SearchCategory::Desktop => "桌面"@,
            SearchCategory::Video => "视频"@,
            SearchCategory::Image => "图片"@,
            SearchCategory::Audio => "音频"@,
            SearchCategory::Code => "代码"@,
            SearchCategory::Doc => "文档"@,
            SearchCategory::Folder => "目录"@,
        }
    }

    /// The filter that narrows a query to each category, in the syntax of
    /// the desktop search tool; `desktop` is the path of the user's desktop,
    /// empty where it is not known.
    pub open spec fn filter_text(self, desktop: Seq<char>) -> Seq<char> {
        match self {
            SearchCategory::All => Seq::empty(),
            SearchCategory::Desktop => if desktop.len() == 0 {
                "ext:exe;lnk;msi"@
            } else {
                "\""@ + desktop + "\" | ext:exe;lnk;msi"@
            },
            SearchCategory::Video => "ext:mp4;mkv;avi;mov;wmv;flv"@,
            SearchCategory::Image => "ext:jpg;jpeg;png;gif;webp;bmp;svg"@,
            SearchCategory::Audio => "ext:mp3;wav;flac;m4a;ogg"@,
            SearchCategory::Code => "ext:rs;py;js;ts;c;cpp;h;java;go;php;html;css;json;toml;yaml"@,
            SearchCategory::Doc => "ext:doc;docx;pdf;ppt;pptx;xls;xlsx;txt;md"@,
            SearchCategory::Folder => "folder:"@,
        }
    }

    /// The icon shown for the category.
    pub fn icon(&self) -> (icon: &'static str)
        ensures
            icon@ == self.icon_text(),
    {
        match self {
            SearchCategory::All => "🔍",
            SearchCategory::Desktop => "💻",
            SearchCategory::Video => "🎬",
            SearchCategory::Image => "🖼",
            SearchCategory::Audio => "🎵",
            SearchCategory::Code => "🦀",
            SearchCategory::Doc => "📄",
            SearchCategory::Folder => "📁",
        }
    }

    /// The label shown for the category.
    pub fn label(&self) -> (label: &'static str)
        ensures
            label@ == self.label_text(),
    {
        match self {
            SearchCategory::All => "全部",
            SearchCategory::Desktop => "桌面",
            SearchCategory::Video => "视频",
            SearchCategory::Image => "图片",
            SearchCategory::Audio => "音频",
            SearchCategory::Code => "代码",
            SearchCategory::Doc => "文档",
            SearchCategory::Folder => "目录",
        }
    }

    /// The filter that narrows a query to the category.
    pub fn es_filter(&self, desktop: &str) -> (filter: String)
        ensures
            filter@ == self.filter_text(desktop@),
    {
        match self {
            SearchCategory::All => String::new(),
            SearchCategory::Desktop => {
                if desktop.is_empty() {
                    String::from_str("ext:exe;lnk;msi")
                } else {
                    let mut filter = String::from_str("\"");
                    filter.append(desktop);
                    filter.append("\" | ext:exe;lnk;msi");
                    filter
                }
            },
            SearchCategory::Video => String::from_str("ext:mp4;mkv;avi;mov;wmv;flv"),
            SearchCategory::Image => String::from_str("ext:jpg;jpeg;png;gif;webp;bmp;svg"),
            SearchCategory::Audio => String::from_str("ext:mp3;wav;flac;m4a;ogg"),
            SearchCategory::Code => String::from_str(
                "ext:rs;py;js;ts;c;cpp;h;java;go;php;html;css;json;toml;yaml",
            ),
            SearchCategory::Doc => String::from_str("ext:doc;docx;pdf;ppt;pptx;xls;xlsx;txt;md"),
            SearchCategory::Folder => String::from_str("folder:"),
        }
    }
}

} // verus!
