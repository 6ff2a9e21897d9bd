use searchfox_api::{FileMatches, FuzzyMatches, LineMatch, MatchContext, Matches, Response};

/// A response to the query `BrowserChild`: declarations, definitions, uses,
/// text and file names, in all three sections.
const BROWSER_CHILD: &str = r#"{
  "*title*": "BrowserChild",
  "*timedout*": false,
  "normal": {
    "Declarations (BrowserChild)": [
      {"path": "dom/base/TabGroup.h", "lines": [
        {"lno": 29, "bounds": [6, 18], "line": "class BrowserChild;", "context": "", "contextsym": ""},
        {"lno": 47, "bounds": [6, 18], "line": "class BrowserChild;", "context": "", "contextsym": "", "peekLines": ""}
      ]},
      {"path": "dom/base/nsContentUtils.h", "lines": [
        {"lno": 151, "bounds": [6, 18], "line": "class BrowserChild;"}
      ]}
    ],
    "Declarations (BrowserChildMessageManager)": [
      {"path": "dom/base/nsWrapperCache.h", "lines": [
        {"lno": 21, "bounds": [6, 18], "line": "class BrowserChildMessageManager;", "context": "", "contextsym": "", "peekLines": ""}
      ]}
    ],
    "Declarations (mozilla::dom::BrowserChild::BrowserChild)": [
      {"path": "dom/ipc/BrowserChild.h", "lines": [
        {"lno": 189, "bounds": [0, 12], "line": "BrowserChild(ContentChild* aManager, const TabId& aTabId, TabGroup* aTabGroup,", "context": "mozilla::dom::BrowserChild", "contextsym": "T_mozilla::dom::BrowserChild", "peekLines": "/**\n * Create a new BrowserChild object.\n */\nBrowserChild(ContentChild* aManager, const TabId& aTabId, TabGroup* aTabGroup,\n             const TabContext& aContext, BrowsingContext* aBrowsingContext,\n             uint32_t aChromeFlags, bool aIsTopLevel);\n"}
      ]}
    ],
    "Definitions (BrowserChild)": [
      {"path": "dom/ipc/BrowserChild.h", "lines": [
        {"lno": 149, "bounds": [6, 18], "line": "class BrowserChild final : public nsMessageManagerScriptExecutor,", "peekLines": "/**\n * BrowserChild implements the child actor part of the PBrowser protocol. See\n * PBrowser for more information.\n */\nclass BrowserChild final : public nsMessageManagerScriptExecutor,\n                           public ipc::MessageManagerCallback,\n                           public PBrowserChild,\n                           public nsIWebBrowserChrome2,\n                           public nsIEmbeddingSiteWindow,\n                           public nsIWebBrowserChromeFocus,\n                           public nsIInterfaceRequestor,\n                           public nsIWindowProvider,\n                           public nsSupportsWeakReference,\n                           public nsIBrowserChild,\n                           public nsIObserver,\n                           public nsIWebProgressListener2,\n                           public TabContext,\n                           public nsITooltipListener,\n                           public mozilla::ipc::IShmemAllocator {\n"}
      ]},
      {"path": "widget/PuppetWidget.h", "lines": [
        {"lno": 46, "bounds": [35, 47], "line": "typedef mozilla::dom::BrowserChild BrowserChild;", "context": "mozilla::widget::PuppetWidget", "contextsym": "T_mozilla::widget::PuppetWidget"}
      ]},
      {"path": "widget/nsIWidget.h", "lines": [
        {"lno": 336, "bounds": [35, 47], "line": "typedef mozilla::dom::BrowserChild BrowserChild;", "context": "nsIWidget", "contextsym": "T_nsIWidget", "peekLines": ""}
      ]}
    ],
    "Definitions (BrowserChildMap)": [
      {"path": "dom/ipc/BrowserChild.cpp", "lines": [
        {"lno": 174, "bounds": [56, 68], "line": "typedef nsDataHashtable<nsUint64HashKey, BrowserChild*> BrowserChildMap;"}
      ]}
    ],
    "Files": [
      {"path": "dom/base/InProcessBrowserChildMessageManager.cpp", "lines": []},
      {"path": "dom/base/InProcessBrowserChildMessageManager.h", "lines": []},
      {"path": "dom/interfaces/base/nsIBrowserChild.idl", "lines": []},
      {"path": "dom/ipc/BrowserChild.cpp", "lines": []},
      {"path": "dom/ipc/BrowserChild.h", "lines": []}
    ],
    "Textual Occurrences": [
      {"path": "browser/modules/AsyncTabSwitcher.jsm", "lines": [
        {"lno": 360, "bounds": [20, 32], "line": "    // constructing BrowserChild's, layer trees, etc, by showing a blank", "context": "", "contextsym": "", "peekLines": ""}
      ]},
      {"path": "devtools/server/actors/targets/browsing-context.js", "lines": [
        {"lno": 751, "bounds": [7, 19], "line": "    // BrowserChild, this event is from within this call:", "context": "", "contextsym": ""}
      ]}
    ],
    "Uses (BrowserChild)": [
      {"path": "accessible/base/NotificationController.cpp", "lines": [
        {"lno": 926, "bounds": [12, 24], "line": "static_cast<BrowserChild*>(browserChild.get())", "context": "mozilla::a11y::NotificationController::WillRefresh", "contextsym": "_ZN7mozilla4a11y22NotificationController11WillRefreshENS_9TimeStampE,_ZN18nsARefreshObserver11WillRefreshEN7mozilla9TimeStampE", "peekLines": ""}
      ]},
      {"path": "accessible/generic/DocAccessible.cpp", "lines": [
        {"lno": 1379, "bounds": [16, 28], "line": "if (RefPtr<dom::BrowserChild> browserChild =", "context": "mozilla::a11y::DocAccessible::DoInitialUpdate", "contextsym": "_ZN7mozilla4a11y13DocAccessible15DoInitialUpdateEv"},
        {"lno": 1380, "bounds": [5, 17], "line": "dom::BrowserChild::GetFrom(docShell)) {", "context": "mozilla::a11y::DocAccessible::DoInitialUpdate", "contextsym": "_ZN7mozilla4a11y13DocAccessible15DoInitialUpdateEv", "peekLines": ""}
      ]},
      {"path": "dom/ipc/TabContext.cpp", "lines": [
        {"lno": 153, "bounds": [12, 24], "line": "static_cast<BrowserChild*>(ipcContext.opener().get_PBrowserChild());", "context": "mozilla::dom::MaybeInvalidTabContext::MaybeInvalidTabContext", "contextsym": "_ZN7mozilla3dom22MaybeInvalidTabContextC1ERKNS0_13IPCTabContextE"}
      ]}
    ],
    "Uses (BrowserChildMap)": [
      {"path": "dom/ipc/BrowserChild.cpp", "lines": [
        {"lno": 175, "bounds": [7, 19], "line": "static BrowserChildMap* sBrowserChildren;", "context": "", "contextsym": "", "peekLines": ""},
        {"lno": 2614, "bounds": [23, 35], "line": "sBrowserChildren = new BrowserChildMap;", "context": "mozilla::dom::BrowserChild::InitRenderingState", "contextsym": "_ZN7mozilla3dom12BrowserChild18InitRenderingStateERKNS_6layers24TextureFactoryIdentifierERKNS2_8LayersIdERKNS2_17CompositorOptionsE"}
      ]}
    ]
  },
  "test": {
    "Textual Occurrences": [
      {"path": "testing/talos/talos/tests/cpstartup/extension/api.js", "lines": [
        {"lno": 30, "bounds": [43, 55], "line": "const MESSAGES = [\"CPStartup:Go\", \"Content:BrowserChildReady\"];", "peekLines": ""},
        {"lno": 77, "bounds": [20, 32], "line": "      case \"Content:BrowserChildReady\": {", "context": "", "contextsym": ""}
      ]},
      {"path": "toolkit/components/windowwatcher/test/browser_new_content_window_chromeflags.js", "lines": [
        {"lno": 175, "bounds": [28, 40], "line": "        .getInterface(Ci.nsIBrowserChild)", "context": "", "contextsym": "", "peekLines": ""},
        {"lno": 282, "bounds": [24, 36], "line": "      // as part of the BrowserChild, so we have to check those too."}
      ]}
    ]
  },
  "generated": {
    "Files": [
      {"path": "__GENERATED__/dist/include/nsIBrowserChild.h", "lines": []},
      {"path": "__GENERATED__/ipc/ipdl/PBrowserChild.cpp", "lines": []},
      {"path": "__GENERATED__/ipc/ipdl/_ipdlheaders/mozilla/dom/PBrowserChild.h", "lines": []}
    ],
    "Uses (BrowserChild)": [
      {"path": "__GENERATED__/ipc/ipdl/PBrowserChild.cpp", "lines": [
        {"lno": 418, "bounds": [50, 62], "line": "return SendPDocAccessibleConstructor((static_cast<BrowserChild*>(this))->AllocPDocAccessibleChild(aP", "context": "mozilla::dom::PBrowserChild::SendPDocAccessibleConstructor", "contextsym": "_ZN7mozilla3dom13PBrowserChild29SendPDocAccessibleConstructorEPNS_4a11y19PDocAccessibleChildERKyRKjS8_", "peekLines": ""},
        {"lno": 476, "bounds": [49, 61], "line": "return SendPPluginWidgetConstructor((static_cast<BrowserChild*>(this))->AllocPPluginWidgetChild());", "context": "mozilla::dom::PBrowserChild::SendPPluginWidgetConstructor", "contextsym": "_ZN7mozilla3dom13PBrowserChild28SendPPluginWidgetConstructorEv"}
      ]}
    ]
  }
}
"#;

fn files(entries: Vec<(String, Vec<LineMatch>)>) -> FileMatches {
    let mut map = FileMatches::new();
    for (path, lines) in entries {
        map.insert(path, lines);
    }
    map
}

fn symbols(entries: Vec<(String, FileMatches)>) -> FuzzyMatches {
    let mut map = FuzzyMatches::new();
    for (symbol, files) in entries {
        map.insert(symbol, files);
    }
    map
}

#[test]
fn test_parse() {
    let rsp = Response::parse(BROWSER_CHILD).unwrap();

    let expected = Response {
        timedout: false,
        title: "BrowserChild".into(),
        generated: Some(Matches {
            declarations: FuzzyMatches::new(),
            definitions: FuzzyMatches::new(),
            files: vec![
                "__GENERATED__/dist/include/nsIBrowserChild.h".into(),
                "__GENERATED__/ipc/ipdl/PBrowserChild.cpp".into(),
                "__GENERATED__/ipc/ipdl/_ipdlheaders/mozilla/dom/PBrowserChild.h".into(),
            ],
            text_matches: FileMatches::new(),
            uses: symbols(vec![
                ("BrowserChild".into(), files(vec![
                    (
                        "__GENERATED__/ipc/ipdl/PBrowserChild.cpp".into(),
                        vec![
                            LineMatch {
                                line: "return SendPDocAccessibleConstructor((static_cast<BrowserChild*>(this))->AllocPDocAccessibleChild(aP".into(),
                                number: 418,
                                bounds: (50, 62),
                                peek_lines: None,
                                context: Some(MatchContext {
                                    context: "mozilla::dom::PBrowserChild::SendPDocAccessibleConstructor".into(),
                                    symbol: "_ZN7mozilla3dom13PBrowserChild29SendPDocAccessibleConstructorEPNS_4a11y19PDocAccessibleChildERKyRKjS8_".into(),
                                }),
                            },
                            LineMatch {
                                line: "return SendPPluginWidgetConstructor((static_cast<BrowserChild*>(this))->AllocPPluginWidgetChild());".into(),
                                number: 476,
                                bounds: (49, 61),
                                peek_lines: None,
                                context: Some(MatchContext {
                                    context: "mozilla::dom::PBrowserChild::SendPPluginWidgetConstructor".into(),
                                    symbol: "_ZN7mozilla3dom13PBrowserChild28SendPPluginWidgetConstructorEv".into(),
                                }),
                            },
                        ],
                    ),
                ])),
            ]),
        }),
        normal: Some(Matches {
            declarations: symbols(vec![
                ("BrowserChild".into(), files(vec![
                    (
                        "dom/base/TabGroup.h".into(),
                        vec![
                            LineMatch {
                                line: "class BrowserChild;".into(),
                                number: 29,
                                bounds: (6, 18),
                                peek_lines: None,
                                context: None,
                            },
                            LineMatch {
                                line: "class BrowserChild;".into(),
                                number: 47,
                                bounds: (6, 18),
                                peek_lines: None,
                                context: None,
                            },
                        ],
                    ),
                    (
                        "dom/base/nsContentUtils.h".into(),
                        vec![
                            LineMatch {
                                line: "class BrowserChild;".into(),
                                number: 151,
                                bounds: (6, 18),
                                peek_lines: None,
                                context: None,
                            },
                        ],
                    ),
                ])),
                ("BrowserChildMessageManager".into(), files(vec![
                    (
                        "dom/base/nsWrapperCache.h".into(),
                        vec![
                            LineMatch {
                                line: "class BrowserChildMessageManager;".into(),
                                number: 21,
                                bounds: (6, 18),
                                peek_lines: None,
                                context: None,
                            },
                        ],
                    ),
                ])),
                ("mozilla::dom::BrowserChild::BrowserChild".into(), files(vec![
                    (
                        "dom/ipc/BrowserChild.h".into(),
                        vec![
                            LineMatch {
                                line: "BrowserChild(ContentChild* aManager, const TabId& aTabId, TabGroup* aTabGroup,".into(),
                                number: 189,
                                bounds: (0, 12),
                                peek_lines: Some("/**\n * Create a new BrowserChild object.\n */\nBrowserChild(ContentChild* aManager, const TabId& aTabId, TabGroup* aTabGroup,\n             const TabContext& aContext, BrowsingContext* aBrowsingContext,\n             uint32_t aChromeFlags, bool aIsTopLevel);\n".into()),
                                context: Some(MatchContext {
                                    context: "mozilla::dom::BrowserChild".into(),
                                    symbol: "T_mozilla::dom::BrowserChild".into(),
                                }),
                            },
                        ],
                    ),
                ])),
            ]),
            definitions: symbols(vec![
                ("BrowserChild".into(), files(vec![
                    (
                        "dom/ipc/BrowserChild.h".into(),
                        vec![
                            LineMatch {
                                line: "class BrowserChild final : public nsMessageManagerScriptExecutor,".into(),
                                number: 149,
                                bounds: (6, 18),
                                peek_lines: Some("/**\n * BrowserChild implements the child actor part of the PBrowser protocol. See\n * PBrowser for more information.\n */\nclass BrowserChild final : public nsMessageManagerScriptExecutor,\n                           public ipc::MessageManagerCallback,\n                           public PBrowserChild,\n                           public nsIWebBrowserChrome2,\n                           public nsIEmbeddingSiteWindow,\n                           public nsIWebBrowserChromeFocus,\n                           public nsIInterfaceRequestor,\n                           public nsIWindowProvider,\n                           public nsSupportsWeakReference,\n                           public nsIBrowserChild,\n                           public nsIObserver,\n                           public nsIWebProgressListener2,\n                           public TabContext,\n                           public nsITooltipListener,\n                           public mozilla::ipc::IShmemAllocator {\n".into()),
                                context: None,
                            },
                        ],
                    ),
                    (
                        "widget/PuppetWidget.h".into(),
                        vec![
                            LineMatch {
                                line: "typedef mozilla::dom::BrowserChild BrowserChild;".into(),
                                number: 46,
                                bounds: (35, 47),
                                peek_lines: None,
                                context: Some(MatchContext {
                                    context: "mozilla::widget::PuppetWidget".into(),
                                    symbol: "T_mozilla::widget::PuppetWidget".into(),
                                }),
                            },
                        ],
                    ),
                    (
                        "widget/nsIWidget.h".into(),
                        vec![
                            LineMatch {
                                line: "typedef mozilla::dom::BrowserChild BrowserChild;".into(),
                                number: 336,
                                bounds: (35, 47),
                                peek_lines: None,
                                context: Some(MatchContext {
                                    context: "nsIWidget".into(),
                                    symbol: "T_nsIWidget".into(),
                                }),
                            },
                        ],
                    ),
                ])),
                ("BrowserChildMap".into(), files(vec![
                    (
                        "dom/ipc/BrowserChild.cpp".into(),
                        vec![
                            LineMatch {
                                line: "typedef nsDataHashtable<nsUint64HashKey, BrowserChild*> BrowserChildMap;".into(),
                                number: 174,
                                bounds: (56, 68),
                                peek_lines: None,
                                context: None,
                            },
                        ],
                    ),
                ])),
            ]),
            files: vec![
                "dom/base/InProcessBrowserChildMessageManager.cpp".into(),
                "dom/base/InProcessBrowserChildMessageManager.h".into(),
                "dom/interfaces/base/nsIBrowserChild.idl".into(),
                "dom/ipc/BrowserChild.cpp".into(),
                "dom/ipc/BrowserChild.h".into(),
            ],
            text_matches: files(vec![
                (
                    "browser/modules/AsyncTabSwitcher.jsm".into(),
                    vec![
                        LineMatch {
                            line: "    // constructing BrowserChild's, layer trees, etc, by showing a blank".into(),
                            number: 360,
                            bounds: (20, 32),
                            peek_lines: None,
                            context: None,
                        },
                    ],
                ),
                (
                    "devtools/server/actors/targets/browsing-context.js".into(),
                    vec![
                        LineMatch {
                            line: "    // BrowserChild, this event is from within this call:".into(),
                            number: 751,
                            bounds: (7, 19),
                            peek_lines: None,
                            context: None,
                        },
                    ],
                ),
            ]),
            uses: symbols(vec![
                ("BrowserChild".into(), files(vec![
                    (
                        "accessible/base/NotificationController.cpp".into(),
                        vec![
                            LineMatch {
                                line: "static_cast<BrowserChild*>(browserChild.get())".into(),
                                number: 926,
                                bounds: (12, 24),
                                peek_lines: None,
                                context: Some(MatchContext {
                                    context: "mozilla::a11y::NotificationController::WillRefresh".into(),
                                    symbol: "_ZN7mozilla4a11y22NotificationController11WillRefreshENS_9TimeStampE,_ZN18nsARefreshObserver11WillRefreshEN7mozilla9TimeStampE".into(),
                                }),
                            },
                        ],
                    ),
                    (
                        "accessible/generic/DocAccessible.cpp".into(),
                        vec![
                            LineMatch {
                                line: "if (RefPtr<dom::BrowserChild> browserChild =".into(),
                                number: 1379,
                                bounds: (16, 28),
                                peek_lines: None,
                                context: Some(MatchContext {
                                    context: "mozilla::a11y::DocAccessible::DoInitialUpdate".into(),
                                    symbol: "_ZN7mozilla4a11y13DocAccessible15DoInitialUpdateEv".into(),
                                }),
                            },
                            LineMatch {
                                line: "dom::BrowserChild::GetFrom(docShell)) {".into(),
                                number: 1380,
                                bounds: (5, 17),
                                peek_lines: None,
                                context: Some(MatchContext {
                                    context: "mozilla::a11y::DocAccessible::DoInitialUpdate".into(),
                                    symbol: "_ZN7mozilla4a11y13DocAccessible15DoInitialUpdateEv".into(),
                                }),
                            },
                        ],
                    ),
                    (
                        "dom/ipc/TabContext.cpp".into(),
                        vec![
                            LineMatch {
                                line: "static_cast<BrowserChild*>(ipcContext.opener().get_PBrowserChild());".into(),
                                number: 153,
                                bounds: (12, 24),
                                peek_lines: None,
                                context: Some(MatchContext {
                                    context: "mozilla::dom::MaybeInvalidTabContext::MaybeInvalidTabContext".into(),
                                    symbol: "_ZN7mozilla3dom22MaybeInvalidTabContextC1ERKNS0_13IPCTabContextE".into(),
                                }),
                            },
                        ],
                    ),
                ])),
                ("BrowserChildMap".into(), files(vec![
                    (
                        "dom/ipc/BrowserChild.cpp".into(),
                        vec![
                            LineMatch {
                                line: "static BrowserChildMap* sBrowserChildren;".into(),
                                number: 175,
                                bounds: (7, 19),
                                peek_lines: None,
                                context: None,
                            },
                            LineMatch {
                                line: "sBrowserChildren = new BrowserChildMap;".into(),
                                number: 2614,
                                bounds: (23, 35),
                                peek_lines: None,
                                context: Some(MatchContext {
                                    context: "mozilla::dom::BrowserChild::InitRenderingState".into(),
                                    symbol: "_ZN7mozilla3dom12BrowserChild18InitRenderingStateERKNS_6layers24TextureFactoryIdentifierERKNS2_8LayersIdERKNS2_17CompositorOptionsE".into(),
                                }),
                            },
                        ],
                    ),
                ])),
            ]),
        }),
        test: Some(Matches {
            declarations: FuzzyMatches::new(),
            definitions: FuzzyMatches::new(),
            files: vec![],
            text_matches: files(vec![
                (
                    "testing/talos/talos/tests/cpstartup/extension/api.js".into(),
                    vec![
                        LineMatch {
                            line: "const MESSAGES = [\"CPStartup:Go\", \"Content:BrowserChildReady\"];".into(),
                            number: 30,
                            bounds: (43, 55),
                            peek_lines: None,
                            context: None,
                        },
                        LineMatch {
                            line: "      case \"Content:BrowserChildReady\": {".into(),
                            number: 77,
                            bounds: (20, 32),
                            peek_lines: None,
                            context: None,
                        },
                    ],
                ),
                (
                    "toolkit/components/windowwatcher/test/browser_new_content_window_chromeflags.js".into(),
                    vec![
                        LineMatch {
                            line: "        .getInterface(Ci.nsIBrowserChild)".into(),
                            number: 175,
                            bounds: (28, 40),
                            peek_lines: None,
                            context: None,
                        },
                        LineMatch {
                            line: "      // as part of the BrowserChild, so we have to check those too.".into(),
                            number: 282,
                            bounds: (24, 36),
                            peek_lines: None,
                            context: None,
                        },
                    ],
                ),
            ]),
            uses: FuzzyMatches::new(),
        }),
    };

    assert_eq!(rsp, expected);
}
